//! The sessions the greeter offers: those that desktop entry files describe,
//! and a login shell that is always there.
use vstd::prelude::*;
use ini::Ini;

verus! {

/// A session the user can start: its display name and its command line.
pub struct Session {
    pub name: String,
    pub command: String,
}

impl View for Session {
    type V = (Seq<char>, Seq<char>);

    open spec fn view(&self) -> (Seq<char>, Seq<char>) {
        (self.name@, self.command@)
    }
}

/// The sessions of a list, each by its view.
pub open spec fn sessions_view(s: Seq<Session>) -> Seq<(Seq<char>, Seq<char>)> {
    s.map_values(|x: Session| x@)
}

/// A copy of `s`.
pub fn copy_session(s: &Session) -> (r: Session)
    ensures
        r@ == s@,
{
    Session { name: s.name.clone(), command: s.command.clone() }
}

/// What `str::to_lowercase` returns for a string, character by character.
pub uninterp spec fn lowercase(s: Seq<char>) -> Seq<char>;

/// The ASCII lower case of a character: `A` to `Z` become `a` to `z`,
/// every other character stays.
pub open spec fn ascii_lower(c: char) -> char {
    if 0x41 <= c as u32 <= 0x5A {
        ((c as u32) + 0x20) as char
    } else {
        c
    }
}

/// Every character of `s` is ASCII.
pub open spec fn all_ascii(s: Seq<char>) -> bool {
    forall|i: int| 0 <= i < s.len() ==> (#[trigger] s[i] as u32) < 0x80
}

/// Wraps `str::to_lowercase`. Its result is `lowercase` of the argument; on
/// ASCII text that is the ASCII lower case, character by character (the
/// Unicode lower-case mapping of the ASCII characters maps `A` to `Z` to
/// `a` to `z` and leaves the others).
#[verifier::external_body]
fn to_lowercase(s: &str) -> (r: String)
    ensures
        r@ == lowercase(s@),
        all_ascii(s@) ==> r@ == s@.map_values(|c: char| ascii_lower(c)),
{
    s.to_lowercase()
}

/// The name of the session that is always offered.
pub open spec fn bash_name() -> Seq<char> {
    seq!['b', 'a', 's', 'h']
}

/// The command line of the session that is always offered.
pub open spec fn bash_exec() -> Seq<char> {
    seq!['/', 'u', 's', 'r', '/', 'b', 'i', 'n', '/', 'b', 'a', 's', 'h']
}

/// Some session of `s` is named "bash", in any letter case.
pub open spec fn has_bash_session(s: Seq<Session>) -> bool {
    exists|i: int| 0 <= i < s.len() && lowercase(#[trigger] s[i].name@) == bash_name()
}

/// `after` is `before` with the "bash" session appended where it lacked
/// one; either way some session of `after` is named "bash".
pub open spec fn appended_bash(before: Seq<Session>, after: Seq<Session>) -> bool {
    &&& has_bash_session(before) ==> after == before
    &&& !has_bash_session(before) ==> {
        &&& after.len() == before.len() + 1
        &&& after.drop_last() == before
        &&& after.last()@ == (bash_name(), bash_exec())
    }
    &&& has_bash_session(after)
}

/// Appends a "bash" session running `/usr/bin/bash` unless some session is
/// already named "bash", in any letter case. Afterwards some session is so
/// named.
pub fn append_bash_session(sessions: &mut Vec<Session>)
    ensures
        appended_bash(old(sessions)@, final(sessions)@),
        forall|k: int|
            0 <= k < old(sessions)@.len() && all_ascii(#[trigger] old(sessions)@[k].name@) ==> lowercase(
                old(sessions)@[k].name@,
            ) == old(sessions)@[k].name@.map_values(|c: char| ascii_lower(c)),
{
    proof {
        reveal_strlit("bash");
        assert("bash"@ =~= bash_name());
        assert(all_ascii("bash"@));
        assert("bash"@.map_values(|c: char| ascii_lower(c)) =~= bash_name());
    }
    let bash = to_lowercase("bash");
    assert(bash@ =~= bash_name());
    let n = sessions.len();
    let mut found = false;
    let mut i: usize = 0;
    while i < n
        invariant
            n == sessions@.len(),
            0 <= i <= n,
            bash@ == bash_name(),
            lowercase(bash_name()) == bash_name(),
            found ==> has_bash_session(sessions@),
            !found ==> forall|k: int| 0 <= k < i ==> lowercase(#[trigger] sessions@[k].name@)
                != bash_name(),
            sessions@ == old(sessions)@,
            forall|k: int|
                0 <= k < i && all_ascii(#[trigger] sessions@[k].name@) ==> lowercase(
                    sessions@[k].name@,
                ) == sessions@[k].name@.map_values(|c: char| ascii_lower(c)),
        decreases n - i,
    {
        let lower = to_lowercase(sessions[i].name.as_str());
        if lower == bash {
            found = true;
        }
        i = i + 1;
    }
    if !found {
        let name = "bash".to_owned();
        let command = "/usr/bin/bash".to_owned();
        proof {
            reveal_strlit("bash");
            reveal_strlit("/usr/bin/bash");
            assert(name@ =~= bash_name());
            assert(command@ =~= bash_exec());
        }
        sessions.push(Session { name, command });
        assert(sessions@.drop_last() =~= old(sessions)@);
        assert(lowercase(sessions@[sessions@.len() - 1].name@) == bash_name());
    }
}

/// Appending the "bash" session a second time changes nothing: the
/// operation is idempotent.
pub proof fn lemma_append_bash_session_idempotent(
    s0: Seq<Session>,
    s1: Seq<Session>,
    s2: Seq<Session>,
)
    requires
        appended_bash(s0, s1),
        appended_bash(s1, s2),
    ensures
        s2 == s1,
{
}


// ---------------------------------------------------------------------------
// Desktop entry files
// ---------------------------------------------------------------------------

/// What `Path::extension` gives for a file name: the part after the last
/// `.`, except for the name `..` and for names whose only `.` comes first.
pub open spec fn file_extension(name: Seq<char>) -> Option<Seq<char>> {
    if name == seq!['.', '.'] {
        None
    } else if exists|i: int| 0 <= i < name.len() && name[i] == '.' {
        let d = choose|i: int|
            0 <= i < name.len() && name[i] == '.' && forall|j: int|
                i < j < name.len() ==> name[j] != '.';
        if d == 0 {
            None
        } else {
            Some(name.subrange(d + 1, name.len() as int))
        }
    } else {
        None
    }
}

/// The extension that marks a desktop entry file.
pub open spec fn desktop_extension() -> Seq<char> {
    seq!['d', 'e', 's', 'k', 't', 'o', 'p']
}

/// The file name has the extension `desktop`.
pub open spec fn is_desktop_file_name_spec(name: Seq<char>) -> bool {
    file_extension(name) == Some(desktop_extension())
}

/// Any non-empty stem followed by `.desktop` is a desktop file name,
/// whatever dots the stem holds.
pub proof fn lemma_desktop_suffix_accepted(stem: Seq<char>)
    requires
        stem.len() > 0,
    ensures
        is_desktop_file_name_spec(stem + seq!['.'] + desktop_extension()),
{
    let name = stem + seq!['.'] + desktop_extension();
    let d = stem.len() as int;
    assert(name[d] == '.');
    assert(name.len() == d + 8);
    assert forall|j: int| d < j < name.len() implies name[j] != '.' by {
        assert(name[j] == desktop_extension()[j - d - 1]);
    }
    let c = choose|i: int|
        0 <= i < name.len() && name[i] == '.' && forall|j: int| i < j < name.len() ==> name[j] != '.';
    if c < d {
        assert(name[d] != '.');
    }
    if c > d {
        assert(name[c] != '.');
    }
    assert(name != seq!['.', '.']) by {
        if name == seq!['.', '.'] {
            assert(name.len() == 2);
        }
    }
    assert(name.subrange(d + 1, name.len() as int) =~= desktop_extension());
}

proof fn lemma_last_dot_exists(name: Seq<char>, k: int)
    requires
        0 <= k < name.len(),
        exists|i: int| 0 <= i <= k && name[i] == '.',
        forall|j: int| k < j < name.len() ==> name[j] != '.',
    ensures
        exists|i: int|
            0 <= i < name.len() && name[i] == '.' && forall|j: int|
                i < j < name.len() ==> name[j] != '.',
    decreases k,
{
    if name[k] == '.' {
        assert(0 <= k < name.len() && name[k] == '.' && forall|j: int|
            k < j < name.len() ==> name[j] != '.');
    } else {
        let w = choose|i: int| 0 <= i <= k && name[i] == '.';
        assert(w != k);
        assert(k > 0);
        lemma_last_dot_exists(name, k - 1);
    }
}

/// A desktop file name is a non-empty stem followed by `.desktop`.
pub proof fn lemma_desktop_name_shape(name: Seq<char>)
    requires
        is_desktop_file_name_spec(name),
    ensures
        name.len() > 8,
        name.subrange(name.len() - 8, name.len() as int) == seq!['.'] + desktop_extension(),
{
    if name == seq!['.', '.'] {
        assert(file_extension(name) is None);
    }
    if !(exists|i: int| 0 <= i < name.len() && name[i] == '.') {
        assert(file_extension(name) is None);
    }
    lemma_last_dot_exists(name, name.len() - 1);
    let c = choose|i: int|
        0 <= i < name.len() && name[i] == '.' && forall|j: int|
            i < j < name.len() ==> name[j] != '.';
    if c == 0 {
        assert(file_extension(name) is None);
    }
    assert(file_extension(name) == Some(name.subrange(c + 1, name.len() as int)));
    assert(name.subrange(c + 1, name.len() as int) == desktop_extension());
    assert(c > 0);
    assert(desktop_extension().len() == 7);
    assert(name.subrange(c + 1, name.len() as int).len() == name.len() - c - 1);
    assert(name.len() == c + 8);
    assert(name.subrange(name.len() - 8, name.len() as int) =~= seq!['.'] + desktop_extension());
}

/// Tells whether a file name has the extension `desktop`, in the sense of
/// `Path::extension`.
pub fn is_desktop_file_name(name: &str) -> (r: bool)
    ensures
        r == is_desktop_file_name_spec(name@),
{
    let n = name.unicode_len();
    let ghost s = name@;
    // Look for the last '.' from the end.
    let mut k: usize = n;
    while k > 0 && name.get_char(k - 1) != '.'
        invariant
            n == s.len(),
            s == name@,
            k <= n,
            forall|j: int| k <= j < n ==> s[j] != '.',
        decreases k,
    {
        k = k - 1;
    }
    // Here k == 0 (no dot), or s[k - 1] is the last dot.
    if k == 0 {
        proof {
            assert(!(exists|i: int| 0 <= i < s.len() && s[i] == '.'));
            if s == seq!['.', '.'] {
                assert(s[0] == '.');
            }
        }
        return false;
    }
    let d = k - 1;
    proof {
        assert(s[d as int] == '.');
        let c = choose|i: int|
            0 <= i < s.len() && s[i] == '.' && forall|j: int| i < j < s.len() ==> s[j] != '.';
        assert(0 <= d < s.len() && s[d as int] == '.' && forall|j: int|
            d < j < s.len() ==> s[j] != '.');
        if c < d {
            assert(s[d as int] != '.');
        }
        if c > d {
            assert(s[c] != '.');
        }
        assert(c == d);
    }
    let two_dots = n == 2 && d == 1 && name.get_char(0) == '.';
    if two_dots {
        proof {
            assert(s =~= seq!['.', '.']);
        }
        return false;
    }
    proof {
        if s == seq!['.', '.'] {
            assert(s[0] == '.');
        }
    }
    if d == 0 {
        return false;
    }
    let ext = name.substring_char(k, n).to_owned();
    let wanted = "desktop".to_owned();
    proof {
        reveal_strlit("desktop");
        assert(wanted@ =~= desktop_extension());
    }
    ext == wanted
}

/// A parsed INI document (`ini::Ini`), opaque to the proofs.
#[verifier::external_type_specification]
#[verifier::external_body]
pub struct ExIni(Ini);

/// The sections of an INI document, by name (`None` for the general
/// section), each with its keys and their values: what a parsed `Ini`
/// answers when asked for the first section of a name and the first value of
/// a key in it.
pub uninterp spec fn ini_sections(conf: Ini) -> Map<Option<Seq<char>>, Map<Seq<char>, Seq<char>>>;

/// What `Ini::load_from_str` makes of a text: the sections of the document,
/// or, where the text does not parse, the text of the parser's error
/// (`line:column message`).
pub uninterp spec fn ini_parse(text: Seq<char>) -> Result<
    Map<Option<Seq<char>>, Map<Seq<char>, Seq<char>>>,
    Seq<char>,
>;

/// A loaded document by its sections, or the text of the error.
pub open spec fn ini_load_view(r: Result<Ini, String>) -> Result<
    Map<Option<Seq<char>>, Map<Seq<char>, Seq<char>>>,
    Seq<char>,
> {
    match r {
        Ok(conf) => Ok(ini_sections(conf)),
        Err(m) => Err(m@),
    }
}

/// Wraps `Ini::load_from_str` (default parse options); a parse error is
/// handed back as its text (`Display` of `ParseError`). The contract claims
/// that the result is `ini_parse` of the text.
#[verifier::external_body]
fn load_ini(text: &str) -> (r: Result<Ini, String>)
    ensures
        ini_load_view(r) == ini_parse(text@),
{
    Ini::load_from_str(text).map_err(|e| e.to_string())
}

/// Wraps `Ini::section`: whether the document has a section of this name.
#[verifier::external_body]
fn ini_has_section(conf: &Ini, name: &str) -> (r: bool)
    ensures
        r == ini_sections(*conf).dom().contains(Some(name@)),
{
    conf.section(Some(name)).is_some()
}

/// Wraps `Ini::get_from`: the first value of `key` in the first section
/// named `section`, if both exist.
#[verifier::external_body]
fn ini_get_from(conf: &Ini, section: &str, key: &str) -> (r: Option<String>)
    ensures
        opt_view(r) == ini_entry(ini_sections(*conf), section@, key@),
{
    conf.get_from(Some(section), key).map(String::from)
}

/// An optional string by its view.
pub open spec fn opt_view(o: Option<String>) -> Option<Seq<char>> {
    match o {
        Some(s) => Some(s@),
        None => None,
    }
}

/// The value of `key` in the section named `section`, if both exist.
pub open spec fn ini_entry(
    sections: Map<Option<Seq<char>>, Map<Seq<char>, Seq<char>>>,
    section: Seq<char>,
    key: Seq<char>,
) -> Option<Seq<char>> {
    if sections.dom().contains(Some(section)) && sections[Some(section)].dom().contains(key) {
        Some(sections[Some(section)][key])
    } else {
        None
    }
}

/// Why a desktop entry file yields no session.
pub enum DesktopFileError {
    /// The file is not a valid INI document; the parser's error text.
    Parse(String),
    /// The file has no `[Desktop Entry]` section.
    NotExist,
}

/// Why a desktop entry file yields no session, by views.
pub enum DesktopFailure {
    Parse(Seq<char>),
    NotExist,
}

/// An error by its view.
pub open spec fn desktop_error_view(e: DesktopFileError) -> DesktopFailure {
    match e {
        DesktopFileError::Parse(m) => DesktopFailure::Parse(m@),
        DesktopFileError::NotExist => DesktopFailure::NotExist,
    }
}

/// The text of a failure: the parser's error, or "Desktop Entry section not
/// exists".
pub open spec fn desktop_failure_message(f: DesktopFailure) -> Seq<char> {
    match f {
        DesktopFailure::Parse(m) => m,
        DesktopFailure::NotExist => "Desktop Entry section not exists"@,
    }
}

impl DesktopFileError {
    /// The text of this error.
    pub fn message(&self) -> (r: String)
        ensures
            r@ == desktop_failure_message(desktop_error_view(*self)),
    {
        match self {
            DesktopFileError::Parse(m) => m.clone(),
            DesktopFileError::NotExist => "Desktop Entry section not exists".to_owned(),
        }
    }
}

/// A parse result by views.
pub open spec fn desktop_result_view(r: Result<Session, DesktopFileError>) -> Result<
    (Seq<char>, Seq<char>),
    DesktopFailure,
> {
    match r {
        Ok(s) => Ok(s@),
        Err(e) => Err(desktop_error_view(e)),
    }
}

/// "Desktop Entry"
pub open spec fn desktop_entry_section() -> Seq<char> {
    seq!['D', 'e', 's', 'k', 't', 'o', 'p', ' ', 'E', 'n', 't', 'r', 'y']
}

/// The text with one leading byte-order mark removed, as
/// `Ini::load_from_file` skips it.
pub open spec fn without_bom(text: Seq<char>) -> Seq<char> {
    if text.len() > 0 && text[0] as u32 == 0xFEFF {
        text.drop_first()
    } else {
        text
    }
}

/// Only one leading byte-order mark is dropped: a text that does not start
/// with one is kept whole, and a mark in front of any text leaves that text.
pub proof fn lemma_bom_dropped_once(text: Seq<char>)
    ensures
        text.len() == 0 || text[0] as u32 != 0xFEFF ==> without_bom(text) == text,
        without_bom(seq!['\u{FEFF}'] + text) == text,
{
    assert((seq!['\u{FEFF}'] + text).drop_first() =~= text);
}

/// The value of a key of the desktop entry section, or the empty string.
pub open spec fn entry_or_empty(
    sections: Map<Option<Seq<char>>, Map<Seq<char>, Seq<char>>>,
    key: Seq<char>,
) -> Seq<char> {
    match ini_entry(sections, desktop_entry_section(), key) {
        Some(v) => v,
        None => Seq::empty(),
    }
}

/// The session that a desktop entry file describes, by its view, or the
/// reason there is none.
pub open spec fn desktop_session(text: Seq<char>) -> Result<
    (Seq<char>, Seq<char>),
    DesktopFailure,
> {
    match ini_parse(without_bom(text)) {
        Err(m) => Err(DesktopFailure::Parse(m)),
        Ok(sections) => if sections.dom().contains(Some(desktop_entry_section())) {
            Ok(
                (
                    entry_or_empty(sections, seq!['N', 'a', 'm', 'e']),
                    entry_or_empty(sections, seq!['E', 'x', 'e', 'c']),
                ),
            )
        } else {
            Err(DesktopFailure::NotExist)
        },
    }
}

/// Reads the session that the text of a desktop entry file describes: the
/// `Name` and `Exec` keys of its `[Desktop Entry]` section, each the empty
/// string where absent.
pub fn parser_desktop_file(text: &str) -> (r: Result<Session, DesktopFileError>)
    ensures
        desktop_result_view(r) == desktop_session(text@),
{
    let n = text.unicode_len();
    let body = if n > 0 && text.get_char(0) as u32 == 0xFEFF {
        text.substring_char(1, n)
    } else {
        text
    };
    assert(body@ =~= without_bom(text@));
    let conf = match load_ini(body) {
        Ok(c) => c,
        Err(m) => return Err(DesktopFileError::Parse(m)),
    };
    let section = "Desktop Entry";
    let name_key = "Name";
    let exec_key = "Exec";
    proof {
        reveal_strlit("Desktop Entry");
        reveal_strlit("Name");
        reveal_strlit("Exec");
        assert(section@ =~= desktop_entry_section());
        assert(name_key@ =~= seq!['N', 'a', 'm', 'e']);
        assert(exec_key@ =~= seq!['E', 'x', 'e', 'c']);
    }
    if !ini_has_section(&conf, section) {
        return Err(DesktopFileError::NotExist);
    }
    let name = match ini_get_from(&conf, section, name_key) {
        Some(v) => v,
        None => String::new(),
    };
    let command = match ini_get_from(&conf, section, exec_key) {
        Some(v) => v,
        None => String::new(),
    };
    Ok(Session { name, command })
}

/// A directory entry as the session search sees it: its file name, whether
/// it is a regular file, and its text where it was read.
pub struct DirEntryInfo {
    pub file_name: String,
    pub is_file: bool,
    pub contents: Option<String>,
}

/// The session an entry contributes, if any: a regular file with the
/// extension `desktop` whose text was read and describes a session.
pub open spec fn entry_session(e: DirEntryInfo) -> Option<(Seq<char>, Seq<char>)> {
    if e.is_file && is_desktop_file_name_spec(e.file_name@) {
        match e.contents {
            Some(text) => match desktop_session(text@) {
                Ok(v) => Some(v),
                Err(_) => None,
            },
            None => None,
        }
    } else {
        None
    }
}

/// The sessions that a list of directory entries contributes, in order.
pub open spec fn entries_sessions(entries: Seq<DirEntryInfo>) -> Seq<(Seq<char>, Seq<char>)>
    decreases entries.len(),
{
    if entries.len() == 0 {
        Seq::empty()
    } else {
        let prev = entries_sessions(entries.drop_last());
        match entry_session(entries.last()) {
            Some(v) => prev.push(v),
            None => prev,
        }
    }
}

/// A single entry contributes its own session, if it has one, and nothing
/// else.
pub proof fn lemma_entries_sessions_single(e: DirEntryInfo)
    ensures
        entries_sessions(seq![e]) == match entry_session(e) {
            Some(v) => seq![v],
            None => Seq::empty(),
        },
{
    let es = seq![e];
    assert(es.drop_last() =~= Seq::<DirEntryInfo>::empty());
    assert(es.last() == e);
    assert(entries_sessions(es.drop_last()).len() == 0);
    match entry_session(e) {
        Some(v) => {
            assert(entries_sessions(es) == entries_sessions(es.drop_last()).push(v));
            assert(entries_sessions(es.drop_last()).push(v) =~= seq![v]);
        },
        None => {
            assert(entries_sessions(es) == entries_sessions(es.drop_last()));
            assert(entries_sessions(es.drop_last()) =~= Seq::<(Seq<char>, Seq<char>)>::empty());
        },
    }
}

/// The sessions of two lists of entries, one after the other, are the
/// sessions of the first list followed by those of the second: every entry
/// contributes on its own, in order, with no bound on the number found.
pub proof fn lemma_entries_sessions_append(e1: Seq<DirEntryInfo>, e2: Seq<DirEntryInfo>)
    ensures
        entries_sessions(e1 + e2) == entries_sessions(e1) + entries_sessions(e2),
    decreases e2.len(),
{
    if e2.len() == 0 {
        assert(e1 + e2 =~= e1);
        assert(entries_sessions(e1) + entries_sessions(e2) =~= entries_sessions(e1));
    } else {
        let p = e2.drop_last();
        lemma_entries_sessions_append(e1, p);
        assert((e1 + e2).drop_last() =~= e1 + p);
        assert((e1 + e2).last() == e2.last());
        match entry_session(e2.last()) {
            Some(v) => {
                assert(entries_sessions(e1 + e2) == entries_sessions(e1 + p).push(v));
                assert((entries_sessions(e1) + entries_sessions(p)).push(v) =~= entries_sessions(e1)
                    + entries_sessions(p).push(v));
            },
            None => {},
        }
    }
}

/// The sessions described by the desktop entry files among `entries`, in
/// the order of the entries; entries that are not regular files, lack the
/// extension `desktop`, were not read or do not parse are skipped.
pub fn find_desktop_files(entries: &Vec<DirEntryInfo>) -> (r: Vec<Session>)
    ensures
        sessions_view(r@) == entries_sessions(entries@),
{
    let mut sessions: Vec<Session> = Vec::new();
    let n = entries.len();
    let mut i: usize = 0;
    while i < n
        invariant
            n == entries@.len(),
            0 <= i <= n,
            sessions_view(sessions@) == entries_sessions(entries@.take(i as int)),
        decreases n - i,
    {
        let e = &entries[i];
        let ghost t1 = entries@.take(i + 1);
        assert(t1.drop_last() =~= entries@.take(i as int));
        assert(t1.last() == *e);
        if e.is_file && is_desktop_file_name(e.file_name.as_str()) {
            match &e.contents {
                Some(text) => {
                    match parser_desktop_file(text.as_str()) {
                        Ok(s) => {
                            sessions.push(s);
                            assert(sessions_view(sessions@) =~= sessions_view(
                                sessions@.drop_last(),
                            ).push(sessions@.last()@));
                        },
                        Err(_) => {},
                    }
                },
                None => {},
            }
        }
        i = i + 1;
    }
    assert(entries@.take(n as int) =~= entries@);
    sessions
}
} // verus!
