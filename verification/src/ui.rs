//! The login form: which field has the focus, what was typed, which session
//! is chosen, how keys change that, and what the form shows.
use vstd::prelude::*;
use vstd::utf8::encode_utf8;
use crate::background::Background;
use crate::session::{Session, copy_session, sessions_view};
use crate::text::{pop_char, push_char, to_string};

verus! {

/// The part of the form that takes the keys.
#[derive(Clone, Copy, PartialEq, Eq, Structural)]
pub enum Focus {
    Session,
    Username,
    Password,
}

/// A key press, as far as the form tells keys apart.
pub enum Key {
    Left,
    Right,
    Backspace,
    Enter,
    Tab,
    Esc,
    Char(char),
    Other,
}

/// What the form holds, as a mathematical value.
pub struct UIState {
    pub focus: Focus,
    pub username: Seq<char>,
    pub password: Seq<char>,
    pub cursor_pos: nat,
    pub message: Seq<char>,
    pub sessions: Seq<(Seq<char>, Seq<char>)>,
    pub session_idx: nat,
    pub handling: bool,
}

/// The login form.
pub struct UI {
    render_img: Option<Background>,
    focus: Focus,
    username: String,
    password: String,
    cursor_pos: usize,
    message: String,
    sessions: Vec<Session>,
    session_idx: usize,
    handling: bool,
}

/// A login to attempt: who, with which password, into which session.
pub struct AuthRequest {
    pub username: String,
    pub password: String,
    pub session: Session,
}

/// What the event loop does after a key.
pub enum LoopAction {
    /// Wait for the next key.
    Continue,
    /// Leave the event loop.
    Quit,
    /// Attempt this login, then report the outcome with `finish_enter`.
    Authenticate(AuthRequest),
}

/// What the login box shows.
pub struct LoginView {
    /// The box's title: "auth..." while a login is under way, else the
    /// last message.
    pub title: String,
    /// "< {session name} >"
    pub session_line: String,
    pub session_underlined: bool,
    /// "Username: {username}"
    pub username_line: String,
    pub username_highlighted: bool,
    /// "Password: " (the password itself is never shown)
    pub password_line: String,
    pub password_highlighted: bool,
    /// The row of the box's layout that holds the cursor, and the cursor's
    /// column within it in bytes of the row's text.
    pub cursor: Option<(usize, usize)>,
}

/// The field after `f` in the cycle session, user name, password.
pub open spec fn next_focus_spec(f: Focus) -> Focus {
    match f {
        Focus::Session => Focus::Username,
        Focus::Username => Focus::Password,
        Focus::Password => Focus::Session,
    }
}

/// Where the cursor stands for a focus: at the start for the session, after
/// the last character of the user name, after the last byte of the
/// password.
pub open spec fn cursor_for(f: Focus, username: Seq<char>, password: Seq<char>) -> nat {
    match f {
        Focus::Session => 0,
        Focus::Username => username.len(),
        Focus::Password => encode_utf8(password).len(),
    }
}

/// The session after `idx` in a list of `len`, wrapping around.
pub open spec fn next_index(idx: nat, len: nat) -> nat
    recommends
        len > 0,
{
    (idx + 1) % len
}

/// The session before `idx` in a list of `len`, wrapping around.
pub open spec fn prev_index(idx: nat, len: nat) -> nat
    recommends
        len > 0,
{
    if idx > 0 {
        (idx - 1) as nat
    } else {
        (len - 1) as nat
    }
}

/// The form after the focus moved on.
pub open spec fn after_next_focus(s: UIState) -> UIState {
    let f = next_focus_spec(s.focus);
    UIState { focus: f, cursor_pos: cursor_for(f, s.username, s.password), ..s }
}

/// A field after a key: backspace removes the last character, a character
/// key appends it, other keys leave it.
pub open spec fn edit_field(field: Seq<char>, key: Key) -> Seq<char> {
    match key {
        Key::Backspace => if field.len() > 0 {
            field.drop_last()
        } else {
            field
        },
        Key::Char(c) => field.push(c),
        _ => field,
    }
}

/// The form after a key other than tab, enter and escape. Nothing changes
/// while a login is under way. On the session, left and right choose the
/// previous and the next session; on the user name and the password the key
/// edits the field.
pub open spec fn after_input(s: UIState, key: Key) -> UIState {
    if s.handling {
        s
    } else {
        match s.focus {
            Focus::Session => match key {
                Key::Left => UIState {
                    session_idx: prev_index(s.session_idx, s.sessions.len()),
                    ..s
                },
                Key::Right => UIState {
                    session_idx: next_index(s.session_idx, s.sessions.len()),
                    ..s
                },
                _ => s,
            },
            Focus::Username => UIState { username: edit_field(s.username, key), ..s },
            Focus::Password => UIState { password: edit_field(s.password, key), ..s },
        }
    }
}

/// The keys that do not panic on a form: choosing another session needs a
/// session to choose.
pub open spec fn input_allowed(s: UIState, key: Key) -> bool {
    (s.focus == Focus::Session && !s.handling && (key is Left || key is Right)) ==> s.sessions.len()
        > 0
}

/// The form once a login is under way.
pub open spec fn after_enter(s: UIState) -> UIState {
    UIState { handling: true, ..s }
}

/// The form once a login attempt is over: on failure its message is shown.
pub open spec fn after_outcome(s: UIState, failure: Option<Seq<char>>) -> UIState {
    match failure {
        Some(m) => UIState { handling: false, message: m, ..s },
        None => UIState { handling: false, ..s },
    }
}

/// The message of a failed outcome.
pub open spec fn failure_view(outcome: Result<(), String>) -> Option<Seq<char>> {
    match outcome {
        Ok(()) => None,
        Err(m) => Some(m@),
    }
}

/// The name of the chosen session, or the empty string where there is none.
pub open spec fn current_session_name(s: UIState) -> Seq<char> {
    if s.session_idx < s.sessions.len() {
        s.sessions[s.session_idx as int].0
    } else {
        Seq::empty()
    }
}

/// The index of the chosen session is inside the list, or 0.
pub open spec fn index_in_range(s: UIState) -> bool {
    s.session_idx == 0 || s.session_idx < s.sessions.len()
}

/// A session handed out by reference, by its view.
pub open spec fn session_ref_view(r: Option<&Session>) -> Option<(Seq<char>, Seq<char>)> {
    match r {
        Some(s) => Some(s@),
        None => None,
    }
}

/// Applies a key to a text field (see `edit_field`).
fn edit(field: &mut String, key: Key)
    ensures
        final(field)@ == edit_field(old(field)@, key),
{
    match key {
        Key::Backspace => {
            pop_char(field);
        },
        Key::Char(c) => push_char(field, c),
        _ => {},
    }
}

/// The request carries the form's user name and password and its chosen
/// session.
pub open spec fn request_matches(req: AuthRequest, s: UIState) -> bool {
    &&& req.username@ == s.username
    &&& req.password@ == s.password
    &&& s.session_idx < s.sessions.len()
    &&& req.session@ == s.sessions[s.session_idx as int]
}

/// "Username: "
pub open spec fn username_label() -> Seq<char> {
    "Username: "@
}

/// "Password: "
pub open spec fn password_label() -> Seq<char> {
    "Password: "@
}

impl View for UI {
    type V = UIState;

    closed spec fn view(&self) -> UIState {
        UIState {
            focus: self.focus,
            username: self.username@,
            password: self.password@,
            cursor_pos: self.cursor_pos as nat,
            message: self.message@,
            sessions: sessions_view(self.sessions@),
            session_idx: self.session_idx as nat,
            handling: self.handling,
        }
    }
}

impl UI {
    #[verifier::type_invariant]
    spec fn index_in_range(&self) -> bool {
        self.session_idx == 0 || self.session_idx < self.sessions@.len()
    }

    /// The background picture.
    pub closed spec fn background_view(&self) -> Option<Background> {
        self.render_img
    }

    /// A form over `sessions`. With a previous user name the name is filled
    /// in and the password has the focus; without one the user name has it.
    /// The cursor stands after the user name.
    pub fn new(sessions: Vec<Session>, prev_username: &str, render_img: Option<Background>) -> (r:
        UI)
        ensures
            r@ == (UIState {
                focus: if prev_username@.len() == 0 {
                    Focus::Username
                } else {
                    Focus::Password
                },
                username: prev_username@,
                password: Seq::empty(),
                cursor_pos: prev_username@.len(),
                message: Seq::empty(),
                sessions: sessions_view(sessions@),
                session_idx: 0,
                handling: false,
            }),
            r.background_view() == render_img,
            index_in_range(r@),
    {
        let count = prev_username.unicode_len();
        let focus = if count == 0 {
            Focus::Username
        } else {
            Focus::Password
        };
        let cursor_pos = if count == 0 {
            0
        } else {
            count
        };
        UI {
            render_img,
            focus,
            username: to_string(prev_username),
            password: String::new(),
            cursor_pos,
            message: String::new(),
            sessions,
            session_idx: 0,
            handling: false,
        }
    }

    /// The background picture.
    pub fn background(&self) -> (r: &Option<Background>)
        ensures
            *r == self.background_view(),
    {
        &self.render_img
    }

    /// The chosen session. Where the index has run past the list there is
    /// none, and the index goes back to the first session.
    pub fn current_session(&mut self) -> (r: Option<&Session>)
        ensures
            old(self)@.session_idx < old(self)@.sessions.len() ==> {
                &&& final(self)@ == old(self)@
                &&& session_ref_view(r) == Some(old(self)@.sessions[old(self)@.session_idx as int])
            },
            old(self)@.session_idx >= old(self)@.sessions.len() ==> {
                &&& final(self)@ == (UIState { session_idx: 0, ..old(self)@ })
                &&& r is None
            },
            final(self).background_view() == old(self).background_view(),
            index_in_range(old(self)@),
            index_in_range(final(self)@),
    {
        proof {
            use_type_invariant(&*self);
        }
        if self.session_idx < self.sessions.len() {
            Some(&self.sessions[self.session_idx])
        } else {
            self.session_idx = 0;
            None
        }
    }

    /// Chooses the next session, after the last the first, and hands it
    /// out.
    pub fn go_next_session(&mut self) -> (r: Option<&Session>)
        requires
            old(self)@.sessions.len() > 0,
        ensures
            final(self)@ == (UIState {
                session_idx: next_index(old(self)@.session_idx, old(self)@.sessions.len()),
                ..old(self)@
            }),
            session_ref_view(r) == Some(
                old(self)@.sessions[next_index(
                    old(self)@.session_idx,
                    old(self)@.sessions.len(),
                ) as int],
            ),
            final(self).background_view() == old(self).background_view(),
            index_in_range(old(self)@),
            index_in_range(final(self)@),
    {
        proof {
            use_type_invariant(&*self);
        }
        let count = self.sessions.len();
        self.session_idx = (self.session_idx + 1) % count;
        self.current_session()
    }

    /// Chooses the previous session, before the first the last, and hands
    /// it out.
    pub fn go_prev_session(&mut self) -> (r: Option<&Session>)
        requires
            old(self)@.sessions.len() > 0,
        ensures
            final(self)@ == (UIState {
                session_idx: prev_index(old(self)@.session_idx, old(self)@.sessions.len()),
                ..old(self)@
            }),
            session_ref_view(r) == Some(
                old(self)@.sessions[prev_index(
                    old(self)@.session_idx,
                    old(self)@.sessions.len(),
                ) as int],
            ),
            final(self).background_view() == old(self).background_view(),
            index_in_range(old(self)@),
            index_in_range(final(self)@),
    {
        proof {
            use_type_invariant(&*self);
        }
        if self.session_idx > 0 {
            self.session_idx = self.session_idx - 1;
        } else {
            self.session_idx = self.sessions.len() - 1;
        }
        self.current_session()
    }

    /// Moves the focus to the next field and the cursor to its place there.
    pub fn next_focus(&mut self)
        ensures
            final(self)@ == after_next_focus(old(self)@),
            final(self).background_view() == old(self).background_view(),
            index_in_range(old(self)@),
            index_in_range(final(self)@),
    {
        proof {
            use_type_invariant(&*self);
        }
        self.focus = match self.focus {
            Focus::Session => Focus::Username,
            Focus::Username => Focus::Password,
            Focus::Password => Focus::Session,
        };
        self.update_cursor_pos();
    }

    /// Puts the cursor where the focus wants it.
    pub fn update_cursor_pos(&mut self)
        ensures
            final(self)@ == (UIState {
                cursor_pos: cursor_for(old(self)@.focus, old(self)@.username, old(self)@.password),
                ..old(self)@
            }),
            final(self).background_view() == old(self).background_view(),
            index_in_range(old(self)@),
            index_in_range(final(self)@),
    {
        proof {
            use_type_invariant(&*self);
        }
        self.cursor_pos = match self.focus {
            Focus::Session => 0,
            Focus::Username => self.username.as_str().unicode_len(),
            Focus::Password => self.password.as_str().as_bytes().len(),
        };
    }

    /// Applies a key other than tab, enter and escape (see `after_input`).
    pub fn handle_input(&mut self, key: Key)
        requires
            input_allowed(old(self)@, key),
        ensures
            final(self)@ == after_input(old(self)@, key),
            final(self).background_view() == old(self).background_view(),
            index_in_range(old(self)@),
            index_in_range(final(self)@),
    {
        proof {
            use_type_invariant(&*self);
        }
        if self.handling {
            return ;
        }
        match self.focus {
            Focus::Session => match key {
                Key::Left => {
                    self.go_prev_session();
                },
                Key::Right => {
                    self.go_next_session();
                },
                _ => {},
            },
            Focus::Username => {
                let mut field = String::new();
                std::mem::swap(&mut field, &mut self.username);
                edit(&mut field, key);
                self.username = field;
            },
            Focus::Password => {
                let mut field = String::new();
                std::mem::swap(&mut field, &mut self.password);
                edit(&mut field, key);
                self.password = field;
            },
        }
    }

    /// Starts a login with what the form holds, unless one is under way:
    /// the request names the user, the password and the chosen session.
    pub fn begin_enter(&mut self) -> (r: Option<AuthRequest>)
        requires
            old(self)@.handling || old(self)@.sessions.len() > 0,
        ensures
            old(self)@.handling ==> r is None && final(self)@ == old(self)@,
            !old(self)@.handling ==> {
                &&& final(self)@ == after_enter(old(self)@)
                &&& r matches Some(req) && request_matches(req, old(self)@)
            },
            final(self).background_view() == old(self).background_view(),
            index_in_range(old(self)@),
            index_in_range(final(self)@),
    {
        proof {
            use_type_invariant(&*self);
        }
        if self.handling {
            return None;
        }
        self.handling = true;
        let username = self.username.clone();
        let password = self.password.clone();
        let session = match self.current_session() {
            Some(s) => copy_session(s),
            None => vstd::pervasive::unreached(),
        };
        Some(AuthRequest { username, password, session })
    }

    /// Ends a login attempt: a success reports `true`, a failure shows its
    /// message and reports `false`.
    pub fn finish_enter(&mut self, outcome: Result<(), String>) -> (r: bool)
        ensures
            r == (outcome is Ok),
            final(self)@ == after_outcome(old(self)@, failure_view(outcome)),
            final(self).background_view() == old(self).background_view(),
            index_in_range(old(self)@),
            index_in_range(final(self)@),
    {
        proof {
            use_type_invariant(&*self);
        }
        let res = match outcome {
            Ok(()) => true,
            Err(m) => {
                self.message = m;
                false
            },
        };
        self.handling = false;
        res
    }

    /// Decides what a key press does: escape leaves the loop in debug
    /// builds only, tab moves the focus, enter starts a login, any other key
    /// goes to the focused field.
    pub fn on_key(&mut self, key: Key, debug_build: bool) -> (r: LoopAction)
        requires
            key is Enter ==> old(self)@.handling || old(self)@.sessions.len() > 0,
            input_allowed(old(self)@, key),
        ensures
            key is Esc ==> final(self)@ == old(self)@ && (r is Quit <==> debug_build) && (r is Continue
                <==> !debug_build),
            r is Quit ==> debug_build && key is Esc,
            key is Tab ==> final(self)@ == after_next_focus(old(self)@) && r is Continue,
            key is Enter && old(self)@.handling ==> final(self)@ == old(self)@ && r is Continue,
            key is Enter && !old(self)@.handling ==> {
                &&& final(self)@ == after_enter(old(self)@)
                &&& r matches LoopAction::Authenticate(req) && request_matches(req, old(self)@)
            },
            !(key is Esc || key is Tab || key is Enter) ==> final(self)@ == after_input(
                old(self)@,
                key,
            ) && r is Continue,
            final(self).background_view() == old(self).background_view(),
            index_in_range(old(self)@),
            index_in_range(final(self)@),
    {
        proof {
            use_type_invariant(&*self);
        }
        match key {
            Key::Esc => {
                if debug_build {
                    LoopAction::Quit
                } else {
                    LoopAction::Continue
                }
            },
            Key::Tab => {
                self.next_focus();
                LoopAction::Continue
            },
            Key::Enter => match self.begin_enter() {
                Some(req) => LoopAction::Authenticate(req),
                None => LoopAction::Continue,
            },
            _ => {
                self.handle_input(key);
                LoopAction::Continue
            },
        }
    }

    /// What the login box shows (see `LoginView`).
    pub fn login_view(&mut self) -> (r: LoginView)
        ensures
            final(self)@ == old(self)@,
            final(self).background_view() == old(self).background_view(),
            index_in_range(old(self)@),
            r.title@ == (if old(self)@.handling {
                "auth..."@
            } else {
                old(self)@.message
            }),
            r.session_line@ == seq!['<', ' '] + current_session_name(old(self)@) + seq![' ', '>'],
            r.session_underlined == (old(self)@.focus == Focus::Session),
            r.username_line@ == username_label() + old(self)@.username,
            r.username_highlighted == (old(self)@.focus == Focus::Username),
            r.password_line@ == password_label(),
            r.password_highlighted == (old(self)@.focus == Focus::Password),
            r.cursor == match old(self)@.focus {
                Focus::Username => Some(
                    (2usize, encode_utf8(username_label() + old(self)@.username).len() as usize),
                ),
                Focus::Password => Some((4usize, 10usize)),
                Focus::Session => None,
            },
    {
        proof {
            use_type_invariant(&*self);
        }
        let title = if self.handling {
            "auth...".to_owned()
        } else {
            self.message.clone()
        };
        let focus = self.focus;
        let mut session_line = "< ".to_owned();
        match self.current_session() {
            Some(s) => session_line.append(s.name.as_str()),
            None => {},
        }
        session_line.append(" >");
        let mut username_line = "Username: ".to_owned();
        username_line.append(self.username.as_str());
        let password_line = "Password: ".to_owned();
        let cursor = match focus {
            Focus::Username => Some((2usize, username_line.as_str().len())),
            Focus::Password => Some((4usize, password_line.as_str().len())),
            Focus::Session => None,
        };
        proof {
            reveal_strlit("< ");
            reveal_strlit(" >");
            reveal_strlit("Password: ");
            assert(password_line@.len() == 10);
            assert(password_line@ =~= seq!['P', 'a', 's', 's', 'w', 'o', 'r', 'd', ':', ' ']);
            assert(encode_utf8(password_line@).len() == 10) by {
                reveal_with_fuel(encode_utf8, 11);
            }
        }
        LoginView {
            title,
            session_line,
            session_underlined: focus == Focus::Session,
            username_line,
            username_highlighted: focus == Focus::Username,
            password_line,
            password_highlighted: focus == Focus::Password,
            cursor,
        }
    }

    /// Which field has the focus.
    pub fn focus(&self) -> (r: Focus)
        ensures
            r == self@.focus,
    {
        self.focus
    }

    /// The user name typed so far.
    pub fn username(&self) -> (r: &str)
        ensures
            r@ == self@.username,
    {
        self.username.as_str()
    }

    /// The password typed so far.
    pub fn password(&self) -> (r: &str)
        ensures
            r@ == self@.password,
    {
        self.password.as_str()
    }

    /// Where the cursor stands.
    pub fn cursor_pos(&self) -> (r: usize)
        ensures
            r == self@.cursor_pos,
    {
        self.cursor_pos
    }

    /// The last message.
    pub fn message(&self) -> (r: &str)
        ensures
            r@ == self@.message,
    {
        self.message.as_str()
    }

    /// The index of the chosen session.
    pub fn session_index(&self) -> (r: usize)
        ensures
            r == self@.session_idx,
            index_in_range(self@),
    {
        proof {
            use_type_invariant(self);
        }
        self.session_idx
    }

    /// The number of sessions on offer.
    pub fn session_count(&self) -> (r: usize)
        ensures
            r == self@.sessions.len(),
    {
        self.sessions.len()
    }

    /// Whether a login is under way.
    pub fn is_handling(&self) -> (r: bool)
        ensures
            r == self@.handling,
    {
        self.handling
    }
}

/// Tab moves from the session to the user name, from the user name to the
/// password and from the password back to the session; the cursor then
/// stands at the start of the session line, after the user name's
/// characters, or after the password's bytes.
pub proof fn lemma_tab_order(s: UIState)
    ensures
        s.focus == Focus::Session ==> after_next_focus(s).focus == Focus::Username
            && after_next_focus(s).cursor_pos == s.username.len(),
        s.focus == Focus::Username ==> after_next_focus(s).focus == Focus::Password
            && after_next_focus(s).cursor_pos == encode_utf8(s.password).len(),
        s.focus == Focus::Password ==> after_next_focus(s).focus == Focus::Session
            && after_next_focus(s).cursor_pos == 0,
{
}

/// Tab three times brings the focus back where it was, with the cursor at
/// its place for that field.
pub proof fn lemma_focus_cycle(s: UIState)
    ensures
        after_next_focus(after_next_focus(after_next_focus(s))) == (UIState {
            cursor_pos: cursor_for(s.focus, s.username, s.password),
            ..s
        }),
{
}

/// Choosing the next session and then the previous one, or the other way
/// round, comes back to the session chosen before.
pub proof fn lemma_next_prev_inverse(idx: nat, len: nat)
    requires
        idx < len,
    ensures
        prev_index(next_index(idx, len), len) == idx,
        next_index(prev_index(idx, len), len) == idx,
{
    if idx + 1 < len {
        assert((idx + 1) % len == idx + 1) by (nonlinear_arith)
            requires
                idx + 1 < len,
        ;
    } else {
        assert((idx + 1) % len == 0) by (nonlinear_arith)
            requires
                idx + 1 == len,
        ;
    }
    if idx > 0 {
        assert(idx % len == idx) by (nonlinear_arith)
            requires
                idx < len,
        ;
    } else {
        assert(len % len == 0) by (nonlinear_arith)
            requires
                len > 0,
        ;
    }
}

/// Choosing the next session as many times as there are sessions comes
/// back to the session chosen before.
pub proof fn lemma_next_full_turn(idx: nat, len: nat)
    requires
        idx < len,
    ensures
        iterate_next(idx, len, len) == idx,
{
    lemma_iterate_next_mod(idx, len, len);
    vstd::arithmetic::div_mod::lemma_mod_add_multiples_vanish(idx as int, len as int);
    vstd::arithmetic::div_mod::lemma_small_mod(idx, len);
}

proof fn lemma_iterate_next_mod(idx: nat, len: nat, k: nat)
    requires
        idx < len,
    ensures
        iterate_next(idx, len, k) as int == (idx as int + k as int) % (len as int),
    decreases k,
{
    if k == 0 {
        vstd::arithmetic::div_mod::lemma_small_mod(idx, len);
    } else {
        lemma_iterate_next_mod(idx, len, (k - 1) as nat);
        let x = idx as int + k as int - 1;
        vstd::arithmetic::div_mod::lemma_add_mod_noop(x, 1, len as int);
        if len > 1 {
            vstd::arithmetic::div_mod::lemma_small_mod(1, len);
        } else {
            assert(((x % 1) + 1) % 1 == (x + 1) % 1) by (nonlinear_arith);
        }
    }
}

/// The session index after choosing the next session `k` times.
pub open spec fn iterate_next(idx: nat, len: nat, k: nat) -> nat
    decreases k,
{
    if k == 0 {
        idx
    } else {
        next_index(iterate_next(idx, len, (k - 1) as nat), len)
    }
}

/// Typing a character and then backspace leaves a field as it was.
pub proof fn lemma_type_then_erase(field: Seq<char>, c: char)
    ensures
        edit_field(edit_field(field, Key::Char(c)), Key::Backspace) == field,
{
    assert(field.push(c).drop_last() =~= field);
}

/// A character key on the focused text field appends exactly that
/// character to it and changes nothing else of the form.
pub proof fn lemma_char_appends(s: UIState, c: char)
    requires
        !s.handling,
    ensures
        s.focus == Focus::Username ==> after_input(s, Key::Char(c)) == (UIState {
            username: s.username.push(c),
            ..s
        }),
        s.focus == Focus::Password ==> after_input(s, Key::Char(c)) == (UIState {
            password: s.password.push(c),
            ..s
        }),
        s.focus == Focus::Session ==> after_input(s, Key::Char(c)) == s,
{
}

/// Backspace on the focused text field removes exactly its last character,
/// and nothing on an empty field; the rest of the form stays.
pub proof fn lemma_backspace_removes_last(s: UIState)
    requires
        !s.handling,
    ensures
        s.focus == Focus::Username && s.username.len() > 0 ==> after_input(s, Key::Backspace) == (
        UIState { username: s.username.subrange(0, s.username.len() - 1), ..s }),
        s.focus == Focus::Password && s.password.len() > 0 ==> after_input(s, Key::Backspace) == (
        UIState { password: s.password.subrange(0, s.password.len() - 1), ..s }),
        (s.focus == Focus::Username && s.username.len() == 0) || (s.focus == Focus::Password
            && s.password.len() == 0) ==> after_input(s, Key::Backspace) == s,
{
    assert(s.username.drop_last() =~= s.username.subrange(0, s.username.len() - 1));
    assert(s.password.drop_last() =~= s.password.subrange(0, s.password.len() - 1));
}

/// Typing a character and then backspace leaves the whole form as it was,
/// whichever text field has the focus.
pub proof fn lemma_type_then_erase_form(s: UIState, c: char)
    requires
        !s.handling,
        s.focus != Focus::Session,
    ensures
        after_input(after_input(s, Key::Char(c)), Key::Backspace) == s,
{
    assert(s.username.push(c).drop_last() =~= s.username);
    assert(s.password.push(c).drop_last() =~= s.password);
}

/// While a login is under way, keys other than tab, enter and escape
/// change nothing.
pub proof fn lemma_input_ignored_while_handling(s: UIState, key: Key)
    requires
        s.handling,
    ensures
        after_input(s, key) == s,
{
}

/// A login attempt that starts from an idle form leaves it as it was: a
/// success changes nothing, a failure only shows its message.
pub proof fn lemma_login_attempt_restores(s: UIState, failure: Option<Seq<char>>)
    requires
        !s.handling,
    ensures
        failure is None ==> after_outcome(after_enter(s), failure) == s,
        failure matches Some(m) ==> after_outcome(after_enter(s), failure) == (UIState {
            message: m,
            ..s
        }),
{
}

} // verus!
