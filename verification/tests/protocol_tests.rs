use disgreet::protocol::{
    decode_reply, encode_request, frame_message, payload_len, request_frame, AuthError, Exchange,
    Reply, Request, Stage, Step,
};

fn reply(t: Option<&str>, d: Option<&str>) -> Reply {
    Reply { msg_type: t.map(String::from), description: d.map(String::from) }
}

#[test]
fn frame_carries_length_in_native_order() {
    let payload = b"{\"type\":\"success\"}";
    let framed = frame_message(payload);
    assert_eq!(&framed[..4], &(payload.len() as u32).to_ne_bytes());
    assert_eq!(&framed[4..], payload);
}

#[test]
fn frame_of_empty_payload() {
    let framed = frame_message(&[]);
    assert_eq!(framed, 0u32.to_ne_bytes().to_vec());
}

#[test]
fn frame_header_reads_back_its_length() {
    for len in [0usize, 1, 255, 256, 65_537, 300_000] {
        let payload = vec![7u8; len];
        let framed = frame_message(&payload);
        let header = [framed[0], framed[1], framed[2], framed[3]];
        assert_eq!(payload_len(header), len);
        assert_eq!(&framed[4..], &payload[..]);
    }
}

#[test]
fn payload_len_decodes_native_order() {
    assert_eq!(payload_len(0x0102_0304u32.to_ne_bytes()), 0x0102_0304);
}

#[test]
fn successful_login_exchange() {
    let (mut ex, first) = Exchange::start("alice", "secret", "sway  --unsupported-gpu");
    match first {
        Request::CreateSession { username } => assert_eq!(username, "alice"),
        _ => panic!("expected create_session"),
    }
    assert!(ex.stage() == Stage::AwaitingUsernameReply);
    match ex.on_reply(&reply(Some("auth_message"), None)) {
        Step::Send(Request::PostAuthMessageResponse { response }) => assert_eq!(response, "secret"),
        _ => panic!("expected the password"),
    }
    assert!(ex.stage() == Stage::AwaitingPasswordReply);
    match ex.on_reply(&reply(Some("success"), None)) {
        Step::Finish(Request::StartSession { cmd }) => {
            assert_eq!(cmd, vec!["sway".to_string(), "--unsupported-gpu".to_string()])
        }
        _ => panic!("expected start_session"),
    }
    assert!(ex.stage() == Stage::Finished);
}

#[test]
fn unknown_user_is_refused_with_description() {
    let (mut ex, _) = Exchange::start("bob", "pw", "bash");
    match ex.on_reply(&reply(Some("error"), Some("no such user"))) {
        Step::Fail(e) => {
            assert!(matches!(e, AuthError::Username(_)));
            assert_eq!(e.message(), "wrong username: no such user");
        }
        _ => panic!("expected a failure"),
    }
    assert!(ex.stage() == Stage::Finished);
}

#[test]
fn missing_type_and_description_fail_with_default_text() {
    let (mut ex, _) = Exchange::start("bob", "pw", "bash");
    match ex.on_reply(&reply(None, None)) {
        Step::Fail(e) => assert_eq!(e.message(), "wrong username: Unknow Error"),
        _ => panic!("expected a failure"),
    }
}

#[test]
fn wrong_password_is_refused() {
    let (mut ex, _) = Exchange::start("carol", "bad", "bash");
    assert!(matches!(ex.on_reply(&reply(Some("auth_message"), None)), Step::Send(_)));
    match ex.on_reply(&reply(Some("auth_message"), Some("authentication failed"))) {
        Step::Fail(e) => {
            assert!(matches!(e, AuthError::Password(_)));
            assert_eq!(e.message(), "wrong password: authentication failed");
        }
        _ => panic!("expected a failure"),
    }
}

#[test]
fn environment_error_message() {
    assert_eq!(AuthError::EnvGreetdSock.message(), "cannot found environment GREETD_SOCK");
}

#[test]
fn requests_encode_as_greetd_json() {
    let create = Request::CreateSession { username: "alice".to_string() };
    assert_eq!(encode_request(&create), br#"{"type":"create_session","username":"alice"}"#.to_vec());
    let answer = Request::PostAuthMessageResponse { response: "p\"w".to_string() };
    assert_eq!(
        encode_request(&answer),
        br#"{"response":"p\"w","type":"post_auth_message_response"}"#.to_vec()
    );
    let start = Request::StartSession { cmd: vec!["sway".to_string(), "--unsupported-gpu".to_string()] };
    assert_eq!(
        encode_request(&start),
        br#"{"cmd":["sway","--unsupported-gpu"],"type":"start_session"}"#.to_vec()
    );
}

#[test]
fn request_frame_is_framed_json() {
    let req = Request::CreateSession { username: "bob".to_string() };
    let json = encode_request(&req);
    let framed = request_frame(&req);
    assert_eq!(framed, frame_message(&json));
    let header = [framed[0], framed[1], framed[2], framed[3]];
    assert_eq!(payload_len(header), json.len());
}

#[test]
fn replies_decode_type_and_description() {
    let r = decode_reply(br#"{"type":"error","error_type":"auth_error","description":"bad"}"#).ok().unwrap();
    assert_eq!(r.msg_type.as_deref(), Some("error"));
    assert_eq!(r.description.as_deref(), Some("bad"));
    let r = decode_reply(br#"{"type":"success"}"#).ok().unwrap();
    assert_eq!(r.msg_type.as_deref(), Some("success"));
    assert_eq!(r.description, None);
    let r = decode_reply(br#"{"type":5,"description":["x"]}"#).ok().unwrap();
    assert_eq!(r.msg_type, None);
    assert_eq!(r.description, None);
    let r = decode_reply(br#"[1,2]"#).ok().unwrap();
    assert_eq!(r.msg_type, None);
}

#[test]
fn malformed_reply_gives_parser_error_text() {
    let bytes = b"{\"type\": ";
    let expected = serde_json::from_slice::<serde_json::Value>(bytes).unwrap_err().to_string();
    match decode_reply(bytes) {
        Err(m) => assert_eq!(m, expected),
        Ok(_) => panic!("expected a parse error"),
    }
}
