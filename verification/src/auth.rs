//! The login handshake.
//!
//! Logging in takes a challenge from the server, one or two requests to the
//! login service, and a final command on the connection. The requests and the
//! sending are done by whoever owns the HTTP client and the socket; what to
//! ask, and what each answer means, is decided here.

use crate::command::{global_line, SendMessage};
use crate::error::ClientError;
use crate::json::{get_text, json_parse, parse, shape_error, text_member};
use crate::message::Challenge;
use crate::text::str_eq;
use vstd::prelude::*;
use vstd::string::StringExecFns;

verus! {

/// Address of the login service, which takes each request as a form by POST.
pub const LOGIN_URL: &'static str = "https://play.pokemonshowdown.com/action.php";

/// A request for an assertion without a password.
#[derive(Copy, Clone, Debug)]
pub struct AssertionRequest<'a> {
    pub challstr: Challenge<'a>,
    pub userid: &'a str,
}

/// A request to log in with a password.
#[derive(Copy, Clone, Debug)]
pub struct PasswordRequest<'a> {
    pub challstr: Challenge<'a>,
    pub name: &'a str,
    pub pass: &'a str,
}

/// What to ask the login service.
#[derive(Copy, Clone, Debug)]
pub enum LoginRequest<'a> {
    Assertion(AssertionRequest<'a>),
    Password(PasswordRequest<'a>),
}

/// The login service wants a password for this name. Supplying one resumes
/// the handshake with the challenge and the name that were kept.
#[derive(Copy, Clone, Debug)]
pub struct PasswordRequired<'a> {
    pub challstr: Challenge<'a>,
    pub login: &'a str,
}

/// What the answer of the login service leads to.
#[derive(Debug)]
pub enum LoginStep<'a> {
    /// Nothing is sent: a password has to be supplied first.
    PasswordRequired(PasswordRequired<'a>),
    /// Send this command to complete the login.
    Send(SendMessage),
}

/// The fields of a form, as plain text.
pub open spec fn form_view(fields: Seq<(&str, &str)>) -> Seq<(Seq<char>, Seq<char>)> {
    fields.map_values(|field: (&str, &str)| (field.0@, field.1@))
}

/// The command that completes a login: `trn`, the name, `0` and the
/// assertion, as a global command.
pub open spec fn trn_line(name: Seq<char>, assertion: Seq<char>) -> Seq<char> {
    global_line("trn "@ + name + ",0,"@ + assertion)
}

/// A body without its first byte, which the login service puts before the
/// document.
pub open spec fn document_of(body: Seq<u8>) -> Seq<u8> {
    if body.len() > 0 {
        body.subrange(1, body.len() as int)
    } else {
        body
    }
}

/// The assertion in the answer to a login with a password: the answer
/// without its first byte is a JSON object whose member `assertion` is a
/// string. Nothing where it is not.
pub open spec fn assertion_of(body: Seq<u8>) -> Option<Seq<char>> {
    match json_parse(document_of(body)) {
        Some(tree) => text_member(tree, "assertion"@),
        None => None,
    }
}

/// Builds the command that completes a login.
fn trn_command(name: &str, assertion: &str) -> (r: SendMessage)
    ensures
        r@ == trn_line(name@, assertion@),
{
    let mut command = String::from_str("trn ");
    command.append(name);
    command.append(",0,");
    command.append(assertion);
    SendMessage::global_command(command.as_str())
}

impl<'a> Challenge<'a> {
    /// Starts a login without a password: the request asks the login service
    /// for an assertion for `login` under this challenge.
    pub fn login(self, login: &'a str) -> (r: AssertionRequest<'a>)
        ensures
            r.challstr == self,
            r.userid == login,
    {
        AssertionRequest { challstr: self, userid: login }
    }

    /// Starts a login with a password. With an empty password this is
    /// [`Challenge::login`].
    pub fn login_with_password(self, login: &'a str, password: &'a str) -> (r: LoginRequest<'a>)
        ensures
            r == if password@.len() == 0 {
                LoginRequest::Assertion(AssertionRequest { challstr: self, userid: login })
            } else {
                LoginRequest::Password(PasswordRequest { challstr: self, name: login, pass: password })
            },
    {
        if password.is_empty() {
            LoginRequest::Assertion(self.login(login))
        } else {
            LoginRequest::Password(PasswordRequest { challstr: self, name: login, pass: password })
        }
    }
}

impl<'a> PasswordRequired<'a> {
    /// Resumes the login with the challenge and the name that were kept.
    pub fn login_with_password(&self, password: &'a str) -> (r: LoginRequest<'a>)
        ensures
            r == if password@.len() == 0 {
                LoginRequest::Assertion(
                    AssertionRequest { challstr: self.challstr, userid: self.login },
                )
            } else {
                LoginRequest::Password(
                    PasswordRequest { challstr: self.challstr, name: self.login, pass: password },
                )
            },
    {
        self.challstr.login_with_password(self.login, password)
    }
}

impl<'a> AssertionRequest<'a> {
    /// The form to post to the login service.
    pub fn form(&self) -> (r: Vec<(&'static str, &'a str)>)
        ensures
            form_view(r@) == seq![
                ("act"@, "getassertion"@),
                ("userid"@, self.userid@),
                ("challstr"@, self.challstr@),
            ],
    {
        let mut fields: Vec<(&'static str, &'a str)> = Vec::new();
        fields.push(("act", "getassertion"));
        fields.push(("userid", self.userid));
        fields.push(("challstr", self.challstr.as_str()));
        assert(form_view(fields@) =~= seq![
            ("act"@, "getassertion"@),
            ("userid"@, self.userid@),
            ("challstr"@, self.challstr@),
        ]);
        fields
    }

    /// Takes the answer of the login service: the text of its body, or the
    /// failure of the request.
    ///
    /// A failed request is the failure of the login. The answer `;` means
    /// that a password is required, and nothing is to be sent. Any other
    /// answer is the assertion itself, and the command that completes the
    /// login is to be sent.
    pub fn complete(self, response: Result<String, reqwest::Error>) -> (r: Result<
        LoginStep<'a>,
        ClientError,
    >)
        ensures
            match response {
                Err(cause) => r == Err::<LoginStep<'a>, ClientError>(ClientError::Reqwest(cause)),
                Ok(answer) => if answer@ == ";"@ {
                    r == Ok::<LoginStep<'a>, ClientError>(
                        LoginStep::PasswordRequired(
                            PasswordRequired { challstr: self.challstr, login: self.userid },
                        ),
                    )
                } else {
                    r matches Ok(LoginStep::Send(command)) && command@ == trn_line(
                        self.userid@,
                        answer@,
                    )
                },
            },
    {
        match response {
            Err(cause) => Err(ClientError::Reqwest(cause)),
            Ok(answer) => {
                if str_eq(answer.as_str(), ";") {
                    Ok(
                        LoginStep::PasswordRequired(
                            PasswordRequired { challstr: self.challstr, login: self.userid },
                        ),
                    )
                } else {
                    Ok(LoginStep::Send(trn_command(self.userid, answer.as_str())))
                }
            },
        }
    }
}

impl<'a> PasswordRequest<'a> {
    /// The form to post to the login service.
    pub fn form(&self) -> (r: Vec<(&'static str, &'a str)>)
        ensures
            form_view(r@) == seq![
                ("act"@, "login"@),
                ("name"@, self.name@),
                ("pass"@, self.pass@),
                ("challstr"@, self.challstr@),
            ],
    {
        let mut fields: Vec<(&'static str, &'a str)> = Vec::new();
        fields.push(("act", "login"));
        fields.push(("name", self.name));
        fields.push(("pass", self.pass));
        fields.push(("challstr", self.challstr.as_str()));
        assert(form_view(fields@) =~= seq![
            ("act"@, "login"@),
            ("name"@, self.name@),
            ("pass"@, self.pass@),
            ("challstr"@, self.challstr@),
        ]);
        fields
    }

    /// Takes the answer of the login service: the bytes of its body, or the
    /// failure of the request.
    ///
    /// A failed request is the failure of the login. Otherwise the body
    /// without its first byte has to be a JSON object with the assertion in
    /// it; the command that completes the login is then to be sent. A body
    /// that is anything else is a JSON failure.
    pub fn complete(self, response: Result<Vec<u8>, reqwest::Error>) -> (r: Result<
        SendMessage,
        ClientError,
    >)
        ensures
            match response {
                Err(cause) => r == Err::<SendMessage, ClientError>(ClientError::Reqwest(cause)),
                Ok(body) => match assertion_of(body@) {
                    Some(assertion) => r matches Ok(command) && command@ == trn_line(
                        self.name@,
                        assertion,
                    ),
                    None => r matches Err(ClientError::Json(_)),
                },
            },
    {
        let body = match response {
            Ok(body) => body,
            Err(cause) => { return Err(ClientError::Reqwest(cause)); },
        };
        let document = if body.len() > 0 {
            body.as_slice().split_at(1).1
        } else {
            body.as_slice()
        };
        let value = match parse(document) {
            Ok(value) => value,
            Err(cause) => { return Err(ClientError::Json(cause)); },
        };
        match get_text(&value, "assertion") {
            Some(assertion) => Ok(trn_command(self.name, assertion.as_str())),
            None => Err(ClientError::Json(shape_error("the answer holds no string `assertion`"))),
        }
    }
}

} // verus!
