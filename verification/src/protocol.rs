//! The greetd IPC protocol as the greeter speaks it: how messages are framed
//! on the socket, and which request follows which reply during a login.
use vstd::prelude::*;
use vstd::endian::{endianness, Endian};
use crate::text::{split_whitespace, to_string, words};

verus! {

// ---------------------------------------------------------------------------
// Framing: a 32-bit length in the machine's byte order, then the payload.
// ---------------------------------------------------------------------------

/// The four bytes of `x`, least significant first.
pub open spec fn le_bytes(x: u32) -> Seq<u8> {
    seq![
        (x & 0xff) as u8,
        ((x >> 8u32) & 0xff) as u8,
        ((x >> 16u32) & 0xff) as u8,
        ((x >> 24u32) & 0xff) as u8,
    ]
}

/// The four bytes of `x`, most significant first.
pub open spec fn be_bytes(x: u32) -> Seq<u8> {
    seq![
        ((x >> 24u32) & 0xff) as u8,
        ((x >> 16u32) & 0xff) as u8,
        ((x >> 8u32) & 0xff) as u8,
        (x & 0xff) as u8,
    ]
}

/// The number whose bytes, least significant first, are `b0 b1 b2 b3`.
pub open spec fn from_le_parts(b0: u8, b1: u8, b2: u8, b3: u8) -> u32 {
    (b0 as u32) | ((b1 as u32) << 8u32) | ((b2 as u32) << 16u32) | ((b3 as u32) << 24u32)
}

/// The number that four bytes encode, least significant first.
pub open spec fn from_le(b: Seq<u8>) -> u32 {
    from_le_parts(b[0], b[1], b[2], b[3])
}

/// The number that four bytes encode, most significant first.
pub open spec fn from_be(b: Seq<u8>) -> u32 {
    from_le_parts(b[3], b[2], b[1], b[0])
}

/// The bytes of `x` in the byte order of the machine the code runs on
/// (vstd's `endianness()`).
pub open spec fn ne_bytes(x: u32) -> Seq<u8> {
    match endianness() {
        Endian::Little => le_bytes(x),
        Endian::Big => be_bytes(x),
    }
}

/// The number that four bytes encode in the machine's byte order.
pub open spec fn from_ne(b: Seq<u8>) -> u32 {
    match endianness() {
        Endian::Little => from_le(b),
        Endian::Big => from_be(b),
    }
}

/// Wraps `u32::to_ne_bytes`: the bytes of `x` in the machine's byte order.
#[verifier::external_body]
fn u32_to_ne_bytes(x: u32) -> (r: [u8; 4])
    ensures
        r@ == ne_bytes(x),
{
    x.to_ne_bytes()
}

/// Wraps `u32::from_ne_bytes`: the number the bytes encode in the machine's
/// byte order.
#[verifier::external_body]
fn u32_from_ne_bytes(b: [u8; 4]) -> (r: u32)
    ensures
        r == from_ne(b@),
{
    u32::from_ne_bytes(b)
}

/// The frame that carries `payload`: its length, cut to 32 bits, in the
/// machine's byte order, then the payload itself.
pub open spec fn frame(payload: Seq<u8>) -> Seq<u8> {
    ne_bytes(payload.len() as u32) + payload
}

/// Frames a message for the greetd socket.
pub fn frame_message(payload: &[u8]) -> (r: Vec<u8>)
    ensures
        r@ == frame(payload@),
{
    let len = payload.len() as u32;
    let header = u32_to_ne_bytes(len);
    let mut out: Vec<u8> = Vec::new();
    out.push(header[0]);
    out.push(header[1]);
    out.push(header[2]);
    out.push(header[3]);
    let n = payload.len();
    let mut i: usize = 0;
    while i < n
        invariant
            n == payload@.len(),
            0 <= i <= n,
            out@ == header@ + payload@.take(i as int),
        decreases n - i,
    {
        out.push(payload[i]);
        assert(payload@.take(i + 1) =~= payload@.take(i as int).push(payload@[i as int]));
        i = i + 1;
    }
    assert(payload@.take(n as int) =~= payload@);
    assert(header@ =~= ne_bytes(payload@.len() as u32));
    out
}

/// The length of the payload that follows a frame header.
pub fn payload_len(header: [u8; 4]) -> (r: usize)
    ensures
        r as int == from_ne(header@) as int,
{
    let n = u32_from_ne_bytes(header);
    n as usize
}

proof fn lemma_le_roundtrip(x: u32)
    ensures
        from_le(le_bytes(x)) == x,
        from_be(be_bytes(x)) == x,
{
    let b0 = (x & 0xff) as u8;
    let b1 = ((x >> 8u32) & 0xff) as u8;
    let b2 = ((x >> 16u32) & 0xff) as u8;
    let b3 = ((x >> 24u32) & 0xff) as u8;
    assert(from_le_parts(b0, b1, b2, b3) == x) by (bit_vector)
        requires
            b0 == (x & 0xff) as u8,
            b1 == ((x >> 8u32) & 0xff) as u8,
            b2 == ((x >> 16u32) & 0xff) as u8,
            b3 == ((x >> 24u32) & 0xff) as u8,
    ;
}

/// Reading a frame back gives what was written: the header of the frame
/// of a payload of at most `u32::MAX` bytes decodes to the payload's
/// length, and the payload follows it unchanged.
pub proof fn lemma_frame_roundtrip(payload: Seq<u8>)
    requires
        payload.len() <= u32::MAX,
    ensures
        from_ne(frame(payload).take(4)) == payload.len(),
        frame(payload).skip(4) == payload,
{
    let x = payload.len() as u32;
    lemma_le_roundtrip(x);
    assert(frame(payload).take(4) =~= ne_bytes(x));
    assert(frame(payload).skip(4) =~= payload);
}

// ---------------------------------------------------------------------------
// The login exchange
// ---------------------------------------------------------------------------

/// A request the greeter sends to greetd.
pub enum Request {
    /// `{"type": "create_session", "username": ..}`
    CreateSession { username: String },
    /// `{"type": "post_auth_message_response", "response": ..}`
    PostAuthMessageResponse { response: String },
    /// `{"type": "start_session", "cmd": [..]}`
    StartSession { cmd: Vec<String> },
}

/// What the greeter reads of a reply from greetd: its `type` and its
/// `description`, each `None` where absent or not a string.
pub struct Reply {
    pub msg_type: Option<String>,
    pub description: Option<String>,
}

/// Why a login was refused.
pub enum AuthError {
    /// The environment does not name the greetd socket.
    EnvGreetdSock,
    /// greetd did not ask for authentication after the user name.
    Username(String),
    /// greetd did not accept the password.
    Password(String),
}

/// "cannot found environment GREETD_SOCK"
pub open spec fn env_message() -> Seq<char> {
    "cannot found environment GREETD_SOCK"@
}

/// "wrong username: "
pub open spec fn username_prefix() -> Seq<char> {
    "wrong username: "@
}

/// "wrong password: "
pub open spec fn password_prefix() -> Seq<char> {
    "wrong password: "@
}

impl AuthError {
    /// The text shown to the user for this error.
    pub fn message(&self) -> (r: String)
        ensures
            *self is EnvGreetdSock ==> r@ == env_message(),
            self matches AuthError::Username(d) ==> r@ == username_prefix() + d@,
            self matches AuthError::Password(d) ==> r@ == password_prefix() + d@,
    {
        match self {
            AuthError::EnvGreetdSock => "cannot found environment GREETD_SOCK".to_owned(),
            AuthError::Username(d) => {
                let mut m = "wrong username: ".to_owned();
                m.append(d.as_str());
                m
            },
            AuthError::Password(d) => {
                let mut m = "wrong password: ".to_owned();
                m.append(d.as_str());
                m
            },
        }
    }
}

/// Where a login exchange stands.
#[derive(Clone, Copy, PartialEq, Eq, Structural)]
pub enum Stage {
    /// `create_session` was sent; its reply is awaited.
    AwaitingUsernameReply,
    /// The password was sent; its reply is awaited.
    AwaitingPasswordReply,
    /// The exchange is over.
    Finished,
}

/// What the greeter does after a reply.
pub enum Step {
    /// Send this request and wait for the next reply.
    Send(Request),
    /// Send this request; the login then succeeded.
    Finish(Request),
    /// The login failed.
    Fail(AuthError),
}

/// One login exchange with greetd: the stage, and what is still to be sent.
pub struct Exchange {
    stage: Stage,
    password: String,
    command: String,
}

/// The `type` of a reply, or the empty string.
pub open spec fn reply_type(r: Reply) -> Seq<char> {
    match r.msg_type {
        Some(t) => t@,
        None => Seq::empty(),
    }
}

/// The `description` of a reply, or "Unknow Error".
pub open spec fn reply_description(r: Reply) -> Seq<char> {
    match r.description {
        Some(d) => d@,
        None => "Unknow Error"@,
    }
}

/// "auth_message"
pub open spec fn auth_message_type() -> Seq<char> {
    "auth_message"@
}

/// "success"
pub open spec fn success_type() -> Seq<char> {
    "success"@
}

/// The strings of a vector, by their views.
pub open spec fn strings_view(v: Seq<String>) -> Seq<Seq<char>> {
    v.map_values(|s: String| s@)
}

fn reply_description_of(reply: &Reply) -> (r: String)
    ensures
        r@ == reply_description(*reply),
{
    match &reply.description {
        Some(d) => d.clone(),
        None => "Unknow Error".to_owned(),
    }
}

fn reply_type_is(reply: &Reply, expected: &str) -> (r: bool)
    ensures
        r == (reply_type(*reply) == expected@),
{
    let wanted = expected.to_owned();
    match &reply.msg_type {
        Some(t) => *t == wanted,
        None => {
            let empty = String::new();
            empty == wanted
        },
    }
}

/// What a step sends or reports, by views.
pub enum StepView {
    /// The password goes out as the answer to greetd's question.
    Password(Seq<char>),
    /// The session starts with this command.
    Start(Seq<Seq<char>>),
    /// The login failed as a wrong user name, with this description.
    UsernameRefused(Seq<char>),
    /// The login failed as a wrong password, with this description.
    PasswordRefused(Seq<char>),
    /// Anything else.
    Other,
}

/// A step by its view.
pub open spec fn step_view(s: Step) -> StepView {
    match s {
        Step::Send(Request::PostAuthMessageResponse { response }) => StepView::Password(response@),
        Step::Finish(Request::StartSession { cmd }) => StepView::Start(strings_view(cmd@)),
        Step::Fail(AuthError::Username(d)) => StepView::UsernameRefused(d@),
        Step::Fail(AuthError::Password(d)) => StepView::PasswordRefused(d@),
        _ => StepView::Other,
    }
}

/// The stage after a reply and what the exchange then does, for an
/// exchange at `stage` answering with `password` and starting `command`.
pub open spec fn reply_outcome(stage: Stage, password: Seq<char>, command: Seq<char>, reply: Reply) -> (
    Stage,
    StepView,
) {
    match stage {
        Stage::AwaitingUsernameReply => if reply_type(reply) == auth_message_type() {
            (Stage::AwaitingPasswordReply, StepView::Password(password))
        } else {
            (Stage::Finished, StepView::UsernameRefused(reply_description(reply)))
        },
        Stage::AwaitingPasswordReply => if reply_type(reply) == success_type() {
            (Stage::Finished, StepView::Start(words(command)))
        } else {
            (Stage::Finished, StepView::PasswordRefused(reply_description(reply)))
        },
        Stage::Finished => (Stage::Finished, StepView::Other),
    }
}

/// What an exchange does in answer to each of `replies` in turn, starting at
/// `stage`, until it is over.
pub open spec fn run_steps(
    stage: Stage,
    password: Seq<char>,
    command: Seq<char>,
    replies: Seq<Reply>,
) -> Seq<StepView>
    decreases replies.len(),
{
    if replies.len() == 0 || stage is Finished {
        Seq::empty()
    } else {
        let (next, step) = reply_outcome(stage, password, command, replies[0]);
        seq![step] + run_steps(next, password, command, replies.drop_first())
    }
}

/// The password reaches greetd only as the answer to its question: two
/// exchanges that differ only in the password, given the same replies, take
/// the same steps, except that each answers a reply of type `auth_message`
/// with its own password, and only there.
pub proof fn lemma_password_only_in_answer(
    stage: Stage,
    p1: Seq<char>,
    p2: Seq<char>,
    command: Seq<char>,
    replies: Seq<Reply>,
)
    ensures
        run_steps(stage, p1, command, replies).len() == run_steps(stage, p2, command, replies).len(),
        run_steps(stage, p1, command, replies).len() <= replies.len(),
        forall|i: int|
            0 <= i < run_steps(stage, p1, command, replies).len() ==> {
                let s1 = #[trigger] run_steps(stage, p1, command, replies)[i];
                let s2 = run_steps(stage, p2, command, replies)[i];
                if s1 is Password {
                    &&& s1 == StepView::Password(p1)
                    &&& s2 == StepView::Password(p2)
                    &&& reply_type(replies[i]) == auth_message_type()
                } else {
                    s1 == s2
                }
            },
    decreases replies.len(),
{
    if replies.len() > 0 && !(stage is Finished) {
        let (n1, _) = reply_outcome(stage, p1, command, replies[0]);
        let (n2, _) = reply_outcome(stage, p2, command, replies[0]);
        assert(n1 == n2);
        let rest = replies.drop_first();
        lemma_password_only_in_answer(n1, p1, p2, command, rest);
        let r1 = run_steps(stage, p1, command, replies);
        let r2 = run_steps(stage, p2, command, replies);
        assert forall|i: int| 0 <= i < r1.len() implies {
            let s1 = #[trigger] r1[i];
            let s2 = r2[i];
            if s1 is Password {
                &&& s1 == StepView::Password(p1)
                &&& s2 == StepView::Password(p2)
                &&& reply_type(replies[i]) == auth_message_type()
            } else {
                s1 == s2
            }
        } by {
            if i > 0 {
                assert(r1[i] == run_steps(n1, p1, command, rest)[i - 1]);
                assert(r2[i] == run_steps(n1, p2, command, rest)[i - 1]);
                assert(replies[i] == rest[i - 1]);
            }
        }
    }
}

impl Exchange {
    /// Where the exchange stands.
    pub closed spec fn stage_view(&self) -> Stage {
        self.stage
    }

    /// Where the exchange stands.
    pub fn stage(&self) -> (r: Stage)
        ensures
            r == self.stage_view(),
    {
        self.stage
    }

    /// The password this exchange will answer with.
    pub closed spec fn password_view(&self) -> Seq<char> {
        self.password@
    }

    /// The command line of the session this exchange will start.
    pub closed spec fn command_view(&self) -> Seq<char> {
        self.command@
    }

    /// Starts a login for `username` with `password`, to start `command`:
    /// the first request asks greetd to create a session for the user.
    pub fn start(username: &str, password: &str, command: &str) -> (r: (Exchange, Request))
        ensures
            r.0.stage_view() is AwaitingUsernameReply,
            r.0.password_view() == password@,
            r.0.command_view() == command@,
            r.1 matches Request::CreateSession { username: u } && u@ == username@,
    {
        let ex = Exchange {
            stage: Stage::AwaitingUsernameReply,
            password: to_string(password),
            command: to_string(command),
        };
        (ex, Request::CreateSession { username: to_string(username) })
    }

    /// Takes greetd's reply to the last request. After `create_session`, a
    /// reply of type `auth_message` is answered with the password and any
    /// other fails as a wrong user name; after the password, a reply of type
    /// `success` is answered by starting the session, whose command is the
    /// words of the session's command line, and any other fails as a wrong
    /// password. A failure carries the reply's description, or "Unknow
    /// Error".
    pub fn on_reply(&mut self, reply: &Reply) -> (r: Step)
        requires
            !(old(self).stage_view() is Finished),
        ensures
            final(self).password_view() == old(self).password_view(),
            final(self).command_view() == old(self).command_view(),
            old(self).stage_view() is AwaitingUsernameReply && reply_type(*reply) == auth_message_type()
                ==> {
                &&& final(self).stage_view() is AwaitingPasswordReply
                &&& r matches Step::Send(Request::PostAuthMessageResponse { response })
                    && response@ == old(self).password_view()
            },
            old(self).stage_view() is AwaitingUsernameReply && reply_type(*reply) != auth_message_type()
                ==> {
                &&& final(self).stage_view() is Finished
                &&& r matches Step::Fail(AuthError::Username(d)) && d@ == reply_description(*reply)
            },
            old(self).stage_view() is AwaitingPasswordReply && reply_type(*reply) == success_type() ==> {
                &&& final(self).stage_view() is Finished
                &&& r matches Step::Finish(Request::StartSession { cmd }) && strings_view(cmd@)
                    == words(old(self).command_view())
            },
            old(self).stage_view() is AwaitingPasswordReply && reply_type(*reply) != success_type() ==> {
                &&& final(self).stage_view() is Finished
                &&& r matches Step::Fail(AuthError::Password(d)) && d@ == reply_description(*reply)
            },
            (final(self).stage_view(), step_view(r)) == reply_outcome(
                old(self).stage_view(),
                old(self).password_view(),
                old(self).command_view(),
                *reply,
            ),
    {
        proof {
            reveal_strlit("auth_message");
            reveal_strlit("success");
        }
        match self.stage {
            Stage::AwaitingUsernameReply => {
                if reply_type_is(reply, "auth_message") {
                    self.stage = Stage::AwaitingPasswordReply;
                    Step::Send(Request::PostAuthMessageResponse { response: self.password.clone() })
                } else {
                    self.stage = Stage::Finished;
                    Step::Fail(AuthError::Username(reply_description_of(reply)))
                }
            },
            Stage::AwaitingPasswordReply => {
                if reply_type_is(reply, "success") {
                    self.stage = Stage::Finished;
                    let cmd = split_whitespace(self.command.as_str());
                    assert(strings_view(cmd@) =~= words(self.command@));
                    Step::Finish(Request::StartSession { cmd })
                } else {
                    self.stage = Stage::Finished;
                    Step::Fail(AuthError::Password(reply_description_of(reply)))
                }
            },
            Stage::Finished => vstd::pervasive::unreached(),
        }
    }
}

// ---------------------------------------------------------------------------
// The JSON of the messages
// ---------------------------------------------------------------------------

/// The value of a field of a JSON object the greeter sends.
pub enum JsonField {
    /// A string.
    Text(String),
    /// An array of strings.
    Texts(Vec<String>),
}

/// A field's value by views.
pub enum JsonFieldView {
    Text(Seq<char>),
    Texts(Seq<Seq<char>>),
}

impl View for JsonField {
    type V = JsonFieldView;

    open spec fn view(&self) -> JsonFieldView {
        match self {
            JsonField::Text(s) => JsonFieldView::Text(s@),
            JsonField::Texts(v) => JsonFieldView::Texts(strings_view(v@)),
        }
    }
}

/// The fields of an object by views.
pub open spec fn fields_view(fields: Seq<(String, JsonField)>) -> Seq<(Seq<char>, JsonFieldView)> {
    fields.map_values(|f: (String, JsonField)| (f.0@, f.1@))
}

/// The bytes `serde_json::to_vec` writes for the JSON object with these
/// fields (a `serde_json::Map`, its keys in sorted order).
pub uninterp spec fn json_object(fields: Seq<(Seq<char>, JsonFieldView)>) -> Seq<u8>;

/// Wraps `serde_json::to_vec` of the object whose fields are given (each
/// key with a string or an array of strings). The contract claims that the
/// bytes are `json_object` of the fields. Serialising such a value cannot
/// fail: `to_vec` fails only for a map with non-string keys or a failing
/// `Serialize`.
#[verifier::external_body]
fn encode_json_object(fields: &Vec<(String, JsonField)>) -> (r: Vec<u8>)
    ensures
        r@ == json_object(fields_view(fields@)),
{
    let map: serde_json::Map<String, serde_json::Value> = fields.iter().map(|(k, v)| match v {
        JsonField::Text(s) => (k.clone(), serde_json::Value::from(s.as_str())),
        JsonField::Texts(l) => (k.clone(), serde_json::Value::from(l.clone())),
    }).collect();
    serde_json::to_vec(&serde_json::Value::Object(map)).unwrap_or_default()
}

/// The `type` and `description` of a JSON document, each where it is a
/// string, or the text of the error where the bytes are not JSON: what
/// `serde_json::from_slice` into a `Value` gives, read with `as_str`.
pub uninterp spec fn reply_json(bytes: Seq<u8>) -> Result<
    (Option<Seq<char>>, Option<Seq<char>>),
    Seq<char>,
>;

/// A reply's fields by views.
pub open spec fn reply_fields(r: Reply) -> (Option<Seq<char>>, Option<Seq<char>>) {
    (opt_string(r.msg_type), opt_string(r.description))
}

/// An optional string by its view.
pub open spec fn opt_string(o: Option<String>) -> Option<Seq<char>> {
    match o {
        Some(s) => Some(s@),
        None => None,
    }
}

/// A parsed reply, or the text of the error, by views.
pub open spec fn reply_result_view(r: Result<Reply, String>) -> Result<
    (Option<Seq<char>>, Option<Seq<char>>),
    Seq<char>,
> {
    match r {
        Ok(rep) => Ok(reply_fields(rep)),
        Err(m) => Err(m@),
    }
}

/// Wraps `serde_json::from_slice` into a `serde_json::Value`, reading its
/// `type` and `description` with `as_str` (`None` where absent or not a
/// string); a parse error is handed back as its text. The contract claims
/// that the result is `reply_json` of the bytes.
#[verifier::external_body]
fn parse_reply_json(bytes: &[u8]) -> (r: Result<Reply, String>)
    ensures
        reply_result_view(r) == reply_json(bytes@),
{
    let v: serde_json::Value = serde_json::from_slice(bytes).map_err(|e| e.to_string())?;
    Ok(
        Reply {
            msg_type: v["type"].as_str().map(String::from),
            description: v["description"].as_str().map(String::from),
        },
    )
}

/// Reads greetd's reply from the payload of a frame: its `type` and
/// `description`, or the JSON parser's error text.
pub fn decode_reply(payload: &[u8]) -> (r: Result<Reply, String>)
    ensures
        reply_result_view(r) == reply_json(payload@),
{
    parse_reply_json(payload)
}

/// The fields of the JSON object that carries a request.
pub open spec fn request_fields(req: Request) -> Seq<(Seq<char>, JsonFieldView)> {
    match req {
        Request::CreateSession { username } => seq![
            ("type"@, JsonFieldView::Text("create_session"@)),
            ("username"@, JsonFieldView::Text(username@)),
        ],
        Request::PostAuthMessageResponse { response } => seq![
            ("type"@, JsonFieldView::Text("post_auth_message_response"@)),
            ("response"@, JsonFieldView::Text(response@)),
        ],
        Request::StartSession { cmd } => seq![
            ("type"@, JsonFieldView::Text("start_session"@)),
            ("cmd"@, JsonFieldView::Texts(strings_view(cmd@))),
        ],
    }
}

/// The JSON bytes of a request.
pub open spec fn request_json(req: Request) -> Seq<u8> {
    json_object(request_fields(req))
}

fn copy_strings(v: &Vec<String>) -> (r: Vec<String>)
    ensures
        strings_view(r@) == strings_view(v@),
{
    let mut out: Vec<String> = Vec::new();
    let mut i: usize = 0;
    while i < v.len()
        invariant
            0 <= i <= v@.len(),
            out@.len() == i,
            forall|k: int| 0 <= k < i ==> (#[trigger] out@[k])@ == v@[k]@,
        decreases v@.len() - i,
    {
        out.push(v[i].clone());
        i = i + 1;
    }
    assert(strings_view(out@) =~= strings_view(v@));
    out
}

/// The JSON text of a request, as the greeter writes it to greetd.
pub fn encode_request(req: &Request) -> (r: Vec<u8>)
    ensures
        r@ == request_json(*req),
{
    let fields: Vec<(String, JsonField)> = match req {
        Request::CreateSession { username } => vec![
            ("type".to_owned(), JsonField::Text("create_session".to_owned())),
            ("username".to_owned(), JsonField::Text(username.clone())),
        ],
        Request::PostAuthMessageResponse { response } => vec![
            ("type".to_owned(), JsonField::Text("post_auth_message_response".to_owned())),
            ("response".to_owned(), JsonField::Text(response.clone())),
        ],
        Request::StartSession { cmd } => vec![
            ("type".to_owned(), JsonField::Text("start_session".to_owned())),
            ("cmd".to_owned(), JsonField::Texts(copy_strings(cmd))),
        ],
    };
    assert(fields_view(fields@) =~= request_fields(*req));
    encode_json_object(&fields)
}

/// The frame that carries a request on the greetd socket.
pub fn request_frame(req: &Request) -> (r: Vec<u8>)
    ensures
        r@ == frame(request_json(*req)),
{
    let json = encode_request(req);
    frame_message(json.as_slice())
}

} // verus!
