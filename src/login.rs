//! The login handshake as a sequence of decisions: each answer of the
//! service leads either to the next call or to the end of the handshake.

use vstd::prelude::*;
use crate::error::SeError;
use crate::scrape::{input_value, element_text, class_link, input_value_of, element_text_of, class_link_of};
use crate::text::{nth_segment, nth_segment_of, unsigned_of, parse_unsigned, occurs_in, contains_text};
use crate::web::{FormRequest, FormRequestView, HttpCall, HttpCallView, HttpOutcome, field, pairs_view, text_of};

verus! {

/// Where the handshake stands: which answer it waits for.
pub enum LoginStage {
    /// The site's login page, which holds a one-time session key.
    LoginPage,
    /// The answer to the submitted credentials.
    LoginAnswer { site_key: String },
    /// The profile page after the login.
    Profile,
    /// The chat page that holds the chat session key and the user's link.
    ChatPage,
}

/// What a finished handshake yields: the chat session key and the user id.
#[derive(Debug)]
pub struct Authenticated {
    pub fkey: String,
    pub user_id: u64,
}

/// A handshake in progress.
pub struct LoginFlow {
    email: String,
    password: String,
    stage: LoginStage,
}

/// What follows a step: a call to make, with the flow that waits for its
/// answer, or the end of the handshake.
pub enum LoginNext {
    Call(LoginFlow, HttpCall),
    Done(Result<Authenticated, SeError>),
}

pub open spec fn login_page_url() -> Seq<char> {
    "https://meta.stackexchange.com/users/login"@
}

pub open spec fn chat_page_url() -> Seq<char> {
    "https://chat.stackexchange.com/chats/join/favorite"@
}

/// The post that submits the credentials with the site's session key.
pub open spec fn login_form(email: Seq<char>, password: Seq<char>, key: Seq<char>) -> FormRequestView {
    FormRequestView {
        url: "https://meta.stackexchange.com/users/login-or-signup/validation/track"@,
        referer: None,
        fields: seq![
            ("email"@, email),
            ("password"@, password),
            ("fkey"@, key),
            ("isSignup"@, "false"@),
            ("isLogin"@, "true"@),
            ("isPassword"@, "false"@),
            ("isAddLogin"@, "false"@),
            ("hasCaptcha"@, "false"@),
            ("ssrc"@, "head"@),
            ("submitButton"@, "Log in"@),
        ],
    }
}

/// The post that loads the profile after the login.
pub open spec fn profile_form(email: Seq<char>, password: Seq<char>, key: Seq<char>) -> FormRequestView {
    FormRequestView {
        url: login_page_url(),
        referer: None,
        fields: seq![("email"@, email), ("password"@, password), ("fkey"@, key), ("ssrc"@, "head"@)],
    }
}

/// The user id in the link to the user's page: its third `/`-separated
/// piece, read as an integer.
pub open spec fn user_id_of_link(link: Seq<char>) -> Option<u64> {
    match nth_segment(link, 2) {
        Some(piece) => unsigned_of(piece),
        None => None,
    }
}

/// `next` continues the handshake of `email` and `password` at `stage`
/// with `call`.
pub open spec fn continues(
    r: LoginNext,
    email: Seq<char>,
    password: Seq<char>,
    stage: spec_fn(LoginStage) -> bool,
    call: HttpCallView,
) -> bool {
    r matches LoginNext::Call(next, c) && next.spec_email() == email && next.spec_password() == password
        && stage(next.spec_stage()) && c@ == call
}

/// The step after the login page, given the session key found on it.
pub open spec fn login_page_next(email: Seq<char>, password: Seq<char>, key: Option<Seq<char>>, r: LoginNext) -> bool {
    match key {
        Some(k) => continues(
            r,
            email,
            password,
            |s: LoginStage| s matches LoginStage::LoginAnswer { site_key } && site_key@ == k,
            HttpCallView::Post(login_form(email, password, k)),
        ),
        None => r matches LoginNext::Done(Err(SeError::LoginFailed(d))) && d@ == "Failed to get fkey"@,
    }
}

/// The step after the answer to the credentials: only `Login-OK` goes on.
pub open spec fn login_answer_next(email: Seq<char>, password: Seq<char>, key: Seq<char>, body: String, r: LoginNext) -> bool {
    if body@ == "Login-OK"@ {
        continues(r, email, password, |s: LoginStage| s is Profile, HttpCallView::Post(profile_form(email, password, key)))
    } else {
        r == LoginNext::Done(Err(SeError::LoginFailed(body)))
    }
}

/// The step after the profile page, given its title.
pub open spec fn profile_next(email: Seq<char>, password: Seq<char>, title: Option<Seq<char>>, r: LoginNext) -> bool {
    if title matches Some(t) && occurs_in(t, "Human verification"@) {
        r == LoginNext::Done(Err(SeError::CaptchaRequired))
    } else {
        continues(r, email, password, |s: LoginStage| s is ChatPage, HttpCallView::Get(chat_page_url()))
    }
}

/// The end of the handshake, given the chat session key and the user's
/// link found on the chat page.
pub open spec fn chat_page_next(key: Option<Seq<char>>, link: Option<Seq<char>>, r: LoginNext) -> bool {
    match (key, link) {
        (Some(k), Some(l)) => match user_id_of_link(l) {
            Some(id) => r matches LoginNext::Done(Ok(a)) && a.fkey@ == k && a.user_id == id,
            None => r == LoginNext::Done(Err(SeError::BadCredentials)),
        },
        _ => r == LoginNext::Done(Err(SeError::BadCredentials)),
    }
}

impl LoginFlow {
    pub closed spec fn spec_email(&self) -> Seq<char> {
        self.email@
    }

    pub closed spec fn spec_password(&self) -> Seq<char> {
        self.password@
    }

    pub closed spec fn spec_stage(&self) -> LoginStage {
        self.stage
    }

    /// Starts a handshake. With the site's session cookie already in the
    /// jar, the credentials are not sent again and the chat page comes
    /// first; otherwise the login page does.
    pub fn begin(email: String, password: String, has_session_cookie: bool) -> (r: LoginNext)
        ensures
            has_session_cookie ==> continues(
                r,
                email@,
                password@,
                |s: LoginStage| s is ChatPage,
                HttpCallView::Get(chat_page_url()),
            ),
            !has_session_cookie ==> continues(
                r,
                email@,
                password@,
                |s: LoginStage| s is LoginPage,
                HttpCallView::Get(login_page_url()),
            ),
    {
        if has_session_cookie {
            let call = HttpCall::Get(String::from_str("https://chat.stackexchange.com/chats/join/favorite"));
            LoginNext::Call(LoginFlow { email, password, stage: LoginStage::ChatPage }, call)
        } else {
            let call = HttpCall::Get(String::from_str("https://meta.stackexchange.com/users/login"));
            LoginNext::Call(LoginFlow { email, password, stage: LoginStage::LoginPage }, call)
        }
    }

    /// The step after the login page, given the session key found on it.
    pub fn after_login_page(self, site_key: Option<String>) -> (r: LoginNext)
        ensures
            login_page_next(self.spec_email(), self.spec_password(), text_of(site_key), r),
    {
        match site_key {
            None => LoginNext::Done(Err(SeError::LoginFailed(String::from_str("Failed to get fkey")))),
            Some(k) => {
                let fields = vec![
                    field("email", self.email.as_str()),
                    field("password", self.password.as_str()),
                    field("fkey", k.as_str()),
                    field("isSignup", "false"),
                    field("isLogin", "true"),
                    field("isPassword", "false"),
                    field("isAddLogin", "false"),
                    field("hasCaptcha", "false"),
                    field("ssrc", "head"),
                    field("submitButton", "Log in"),
                ];
                let form = FormRequest {
                    url: String::from_str("https://meta.stackexchange.com/users/login-or-signup/validation/track"),
                    referer: None,
                    fields,
                };
                assert(pairs_view(form.fields@) =~= login_form(self.email@, self.password@, k@).fields);
                assert(form@ == login_form(self.email@, self.password@, k@));
                LoginNext::Call(
                    LoginFlow { email: self.email, password: self.password, stage: LoginStage::LoginAnswer { site_key: k } },
                    HttpCall::Post(form),
                )
            },
        }
    }

    /// The step after the answer to the credentials.
    pub fn after_login_answer(self, site_key: String, body: String) -> (r: LoginNext)
        ensures
            login_answer_next(self.spec_email(), self.spec_password(), site_key@, body, r),
    {
        if body == String::from_str("Login-OK") {
            let fields = vec![
                field("email", self.email.as_str()),
                field("password", self.password.as_str()),
                field("fkey", site_key.as_str()),
                field("ssrc", "head"),
            ];
            let form = FormRequest {
                url: String::from_str("https://meta.stackexchange.com/users/login"),
                referer: None,
                fields,
            };
            assert(pairs_view(form.fields@) =~= profile_form(self.email@, self.password@, site_key@).fields);
            assert(form@ == profile_form(self.email@, self.password@, site_key@));
            LoginNext::Call(
                LoginFlow { email: self.email, password: self.password, stage: LoginStage::Profile },
                HttpCall::Post(form),
            )
        } else {
            LoginNext::Done(Err(SeError::LoginFailed(body)))
        }
    }

    /// The step after the profile page, given its title.
    pub fn after_profile(self, title: Option<String>) -> (r: LoginNext)
        ensures
            profile_next(self.spec_email(), self.spec_password(), text_of(title), r),
    {
        let captcha = match &title {
            Some(t) => contains_text(t.as_str(), "Human verification"),
            None => false,
        };
        if captcha {
            LoginNext::Done(Err(SeError::CaptchaRequired))
        } else {
            let call = HttpCall::Get(String::from_str("https://chat.stackexchange.com/chats/join/favorite"));
            LoginNext::Call(LoginFlow { email: self.email, password: self.password, stage: LoginStage::ChatPage }, call)
        }
    }

    /// The end of the handshake, given the chat session key and the user's
    /// link found on the chat page.
    pub fn after_chat_page(chat_key: Option<String>, user_link: Option<String>) -> (r: LoginNext)
        ensures
            chat_page_next(text_of(chat_key), text_of(user_link), r),
    {
        match (chat_key, user_link) {
            (Some(k), Some(l)) => {
                let id = match nth_segment_of(l.as_str(), 2) {
                    Some(piece) => parse_unsigned(piece.as_str()),
                    None => None,
                };
                match id {
                    Some(user_id) => LoginNext::Done(Ok(Authenticated { fkey: k, user_id })),
                    None => LoginNext::Done(Err(SeError::BadCredentials)),
                }
            },
            _ => LoginNext::Done(Err(SeError::BadCredentials)),
        }
    }

    /// Takes the outcome of the last call and says what follows. A failed
    /// call ends the handshake: as a transport error, or as bad
    /// credentials on the chat page.
    pub fn on_reply(self, outcome: HttpOutcome) -> (r: LoginNext)
        ensures
            match outcome {
                HttpOutcome::Transport(d) => match self.spec_stage() {
                    LoginStage::ChatPage => r == LoginNext::Done(Err(SeError::BadCredentials)),
                    _ => r == LoginNext::Done(Err(SeError::TransportError(d))),
                },
                HttpOutcome::Answer { body, .. } => match self.spec_stage() {
                    LoginStage::LoginPage => login_page_next(
                        self.spec_email(),
                        self.spec_password(),
                        input_value_of(body@, "fkey"@),
                        r,
                    ),
                    LoginStage::LoginAnswer { site_key } => login_answer_next(
                        self.spec_email(),
                        self.spec_password(),
                        site_key@,
                        body,
                        r,
                    ),
                    LoginStage::Profile => profile_next(
                        self.spec_email(),
                        self.spec_password(),
                        element_text_of(body@, "title"@),
                        r,
                    ),
                    LoginStage::ChatPage => chat_page_next(
                        input_value_of(body@, "fkey"@),
                        class_link_of(body@, "topbar-menu-links"@),
                        r,
                    ),
                },
            },
    {
        match outcome {
            HttpOutcome::Transport(d) => match self.stage {
                LoginStage::ChatPage => LoginNext::Done(Err(SeError::BadCredentials)),
                _ => LoginNext::Done(Err(SeError::TransportError(d))),
            },
            HttpOutcome::Answer { body, .. } => match self.stage {
                LoginStage::LoginPage => {
                    let key = input_value(body.as_str(), "fkey");
                    self.after_login_page(key)
                },
                LoginStage::LoginAnswer { site_key } => {
                    let flow = LoginFlow { email: self.email, password: self.password, stage: LoginStage::Profile };
                    flow.after_login_answer(site_key, body)
                },
                LoginStage::Profile => {
                    let title = element_text(body.as_str(), "title");
                    self.after_profile(title)
                },
                LoginStage::ChatPage => {
                    let key = input_value(body.as_str(), "fkey");
                    let link = class_link(body.as_str(), "topbar-menu-links");
                    LoginFlow::after_chat_page(key, link)
                },
            },
        }
    }
}

} // verus!
