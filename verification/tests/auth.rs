use showdown::auth::{LoginRequest, LoginStep, PasswordRequired, LOGIN_URL};
use showdown::message::{Challenge, Kind, Message};
use showdown::ClientError;

fn http_failure() -> reqwest::Error {
    reqwest::Client::new().get("no address").build().unwrap_err()
}

#[test]
fn login_service_address() {
    assert_eq!(LOGIN_URL, "https://play.pokemonshowdown.com/action.php");
}

#[test]
fn challenge_from_a_frame_starts_a_login() {
    let message = Message::new("|challstr|4|deadbeef".to_string());
    let challenge = match message.kind() {
        Kind::Challenge(challenge) => challenge,
        _ => unreachable!(),
    };
    let request = challenge.login("xfix");
    assert_eq!(
        request.form(),
        vec![
            ("act", "getassertion"),
            ("userid", "xfix"),
            ("challstr", "4|deadbeef"),
        ]
    );
}

#[test]
fn answer_that_asks_for_a_password() {
    let request = Challenge::new("4|ab").login("xfix");
    match request.complete(Ok(";".to_string())) {
        Ok(LoginStep::PasswordRequired(pending)) => {
            assert_eq!(pending.login, "xfix");
            assert_eq!(pending.challstr.as_str(), "4|ab");
        }
        other => panic!("{:?}", other),
    }
}

#[test]
fn answer_that_is_an_assertion() {
    let request = Challenge::new("4|ab").login("xfix");
    match request.complete(Ok("xfix,4,sig".to_string())) {
        Ok(LoginStep::Send(command)) => assert_eq!(command.as_str(), "|/trn xfix,0,xfix,4,sig"),
        other => panic!("{:?}", other),
    }
    let request = Challenge::new("4|ab").login("xfix");
    match request.complete(Ok(";;".to_string())) {
        Ok(LoginStep::Send(command)) => assert_eq!(command.as_str(), "|/trn xfix,0,;;"),
        other => panic!("{:?}", other),
    }
    let request = Challenge::new("4|ab").login("");
    match request.complete(Ok(String::new())) {
        Ok(LoginStep::Send(command)) => assert_eq!(command.as_str(), "|/trn ,0,"),
        other => panic!("{:?}", other),
    }
}

#[test]
fn failed_assertion_request_is_the_failure() {
    let request = Challenge::new("4|ab").login("xfix");
    assert!(matches!(
        request.complete(Err(http_failure())),
        Err(ClientError::Reqwest(_))
    ));
}

#[test]
fn empty_password_asks_for_an_assertion() {
    match Challenge::new("4|ab").login_with_password("xfix", "") {
        LoginRequest::Assertion(request) => {
            assert_eq!(request.userid, "xfix");
            assert_eq!(request.challstr.as_str(), "4|ab");
        }
        other => panic!("{:?}", other),
    }
}

#[test]
fn password_login_form() {
    match Challenge::new("4|ab").login_with_password("xfix", "hunter2") {
        LoginRequest::Password(request) => assert_eq!(
            request.form(),
            vec![
                ("act", "login"),
                ("name", "xfix"),
                ("pass", "hunter2"),
                ("challstr", "4|ab"),
            ]
        ),
        other => panic!("{:?}", other),
    }
}

#[test]
fn pending_login_resumes_with_what_it_kept() {
    let pending = PasswordRequired {
        challstr: Challenge::new("4|ab"),
        login: "xfix",
    };
    match pending.login_with_password("hunter2") {
        LoginRequest::Password(request) => {
            assert_eq!(request.name, "xfix");
            assert_eq!(request.pass, "hunter2");
            assert_eq!(request.challstr.as_str(), "4|ab");
        }
        other => panic!("{:?}", other),
    }
    assert!(matches!(
        pending.login_with_password(""),
        LoginRequest::Assertion(_)
    ));
}

fn password_request() -> showdown::auth::PasswordRequest<'static> {
    match Challenge::new("4|ab").login_with_password("xfix", "hunter2") {
        LoginRequest::Password(request) => request,
        _ => unreachable!(),
    }
}

#[test]
fn password_answer_with_an_assertion() {
    let body = b"]{\"actionsuccess\":true,\"assertion\":\"xfix,4,s\\\"ig\",\"curuser\":{}}".to_vec();
    match password_request().complete(Ok(body)) {
        Ok(command) => assert_eq!(command.as_str(), "|/trn xfix,0,xfix,4,s\"ig"),
        other => panic!("{:?}", other),
    }
}

#[test]
fn password_answer_skips_exactly_one_byte() {
    assert!(matches!(
        password_request().complete(Ok(b"{\"assertion\":\"a\"}".to_vec())),
        Err(ClientError::Json(_))
    ));
    assert!(matches!(
        password_request().complete(Ok(b"]]{\"assertion\":\"a\"}".to_vec())),
        Err(ClientError::Json(_))
    ));
    match password_request().complete(Ok(b" {\"assertion\":\"a\"}".to_vec())) {
        Ok(command) => assert_eq!(command.as_str(), "|/trn xfix,0,a"),
        other => panic!("{:?}", other),
    }
}

#[test]
fn password_answer_without_an_assertion_is_a_json_failure() {
    for body in [
        &b""[..],
        &b"]"[..],
        &b"]{}"[..],
        &b"]{\"assertion\":5}"[..],
        &b"]{\"assertion\":null}"[..],
        &b"][\"assertion\"]"[..],
        &b"]{\"assertion\":\"a\""[..],
        &b"]\xff"[..],
    ] {
        assert!(matches!(
            password_request().complete(Ok(body.to_vec())),
            Err(ClientError::Json(_))
        ));
    }
}

#[test]
fn failed_password_request_is_the_failure() {
    assert!(matches!(
        password_request().complete(Err(http_failure())),
        Err(ClientError::Reqwest(_))
    ));
}
