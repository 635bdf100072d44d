//! The token exchange: from the four secrets to the one request that asks for
//! a token, and from what came back to a token or a typed error.

use crate::basic::{basic_value, http_basic};
use vstd::prelude::*;
use vstd::string::{StringExecFns, StringSliceAdditionalSpecFns};
use vstd::utf8::encode_utf8;

verus! {

/// The endpoint that hands out tokens.
pub const TOKEN_URL: &'static str = "https://www.reddit.com/api/v1/access_token";

/// The `User-Agent` that identifies this client to the server.
pub const USER_AGENT: &'static str = "leo60228's Homestuck^2 update bot";

/// An access token, as the server issued it.
#[derive(Debug, PartialEq, Eq)]
pub struct Token(pub String);

/// The four secrets that a token request needs.
#[derive(Debug, Clone, Copy, PartialEq, Eq, Structural)]
pub enum SecretName {
    Username,
    Password,
    ClientId,
    ClientSecret,
}

/// The key under which a secret is looked up.
pub open spec fn secret_key(name: SecretName) -> Seq<char> {
    match name {
        SecretName::Username => "REDDIT_USERNAME"@,
        SecretName::Password => "REDDIT_PASSWORD"@,
        SecretName::ClientId => "REDDIT_CLIENT_ID"@,
        SecretName::ClientSecret => "REDDIT_CLIENT_SECRET"@,
    }
}

impl SecretName {
    /// The key under which this secret is looked up.
    pub fn key(&self) -> (r: &'static str)
        ensures
            r@ == secret_key(*self),
    {
        match self {
            SecretName::Username => "REDDIT_USERNAME",
            SecretName::Password => "REDDIT_PASSWORD",
            SecretName::ClientId => "REDDIT_CLIENT_ID",
            SecretName::ClientSecret => "REDDIT_CLIENT_SECRET",
        }
    }
}

/// What can go wrong while obtaining a token.
#[derive(Debug, PartialEq, Eq)]
pub enum ExchangeError {
    /// A secret could not be found, so no request was made.
    MissingSecret { name: SecretName },
    /// The exchange itself failed, or the body of the reply could not be read.
    Transport(String),
    /// The server answered with a status other than 200.
    Http { status: u16, body: String },
    /// The server answered 200 with a body that holds no string `access_token`.
    Decode(String),
}

/// The secrets as the secret source gave them: `None` where it had none.
#[derive(Debug)]
pub struct Secrets {
    pub username: Option<String>,
    pub password: Option<String>,
    pub client_id: Option<String>,
    pub client_secret: Option<String>,
}

/// The four secrets, all present.
#[derive(Debug)]
pub struct Credentials {
    pub username: String,
    pub password: String,
    pub client_id: String,
    pub client_secret: String,
}

/// The first secret that is absent, in the order in which they are looked up:
/// user name, password, client id, client secret.
pub open spec fn first_missing(s: Secrets) -> Option<SecretName> {
    if s.username is None {
        Some(SecretName::Username)
    } else if s.password is None {
        Some(SecretName::Password)
    } else if s.client_id is None {
        Some(SecretName::ClientId)
    } else if s.client_secret is None {
        Some(SecretName::ClientSecret)
    } else {
        None
    }
}

/// `s` has no value for the secret `name`.
pub open spec fn is_absent(s: Secrets, name: SecretName) -> bool {
    match name {
        SecretName::Username => s.username is None,
        SecretName::Password => s.password is None,
        SecretName::ClientId => s.client_id is None,
        SecretName::ClientSecret => s.client_secret is None,
    }
}

/// A missing secret always stops the exchange, and the secret named is one
/// that is missing; where only one is missing, it is exactly that one.
pub proof fn lemma_missing_secret_named(s: Secrets, name: SecretName)
    ensures
        is_absent(s, name) ==> first_missing(s) is Some,
        first_missing(s) matches Some(n) ==> is_absent(s, n),
        is_absent(s, name) && (forall|other: SecretName| #[trigger] is_absent(s, other) ==> other == name)
            ==> first_missing(s) == Some(name),
{
    if is_absent(s, name) && (forall|other: SecretName| #[trigger] is_absent(s, other) ==> other == name) {
        assert(is_absent(s, SecretName::Username) ==> SecretName::Username == name);
        assert(is_absent(s, SecretName::Password) ==> SecretName::Password == name);
        assert(is_absent(s, SecretName::ClientId) ==> SecretName::ClientId == name);
    }
}

/// Takes the four secrets out of `secrets`, or names the first one that is
/// missing.
pub fn credentials(secrets: &Secrets) -> (r: Result<Credentials, ExchangeError>)
    ensures
        match first_missing(*secrets) {
            Some(name) => r == Err::<Credentials, ExchangeError>(
                ExchangeError::MissingSecret { name },
            ),
            None => r == Ok::<Credentials, ExchangeError>(
                Credentials {
                    username: secrets.username.unwrap(),
                    password: secrets.password.unwrap(),
                    client_id: secrets.client_id.unwrap(),
                    client_secret: secrets.client_secret.unwrap(),
                },
            ),
        },
{
    let username = match &secrets.username {
        Some(s) => s.clone(),
        None => {
            return Err(ExchangeError::MissingSecret { name: SecretName::Username });
        },
    };
    let password = match &secrets.password {
        Some(s) => s.clone(),
        None => {
            return Err(ExchangeError::MissingSecret { name: SecretName::Password });
        },
    };
    let client_id = match &secrets.client_id {
        Some(s) => s.clone(),
        None => {
            return Err(ExchangeError::MissingSecret { name: SecretName::ClientId });
        },
    };
    let client_secret = match &secrets.client_secret {
        Some(s) => s.clone(),
        None => {
            return Err(ExchangeError::MissingSecret { name: SecretName::ClientSecret });
        },
    };
    Ok(Credentials { username, password, client_id, client_secret })
}

/// The one POST request that asks for a token.
#[derive(Debug)]
pub struct TokenRequest {
    pub url: String,
    pub user_agent: String,
    pub authorization: String,
    /// The fields of the url-encoded form body, as (name, value) pairs.
    pub form: Vec<(String, String)>,
}

/// The form fields of a password grant.
pub open spec fn grant_form(username: Seq<char>, password: Seq<char>) -> Seq<(Seq<char>, Seq<char>)> {
    seq![
        ("grant_type"@, "password"@),
        ("username"@, username),
        ("password"@, password),
    ]
}

/// The pairs of a form, as character sequences.
pub open spec fn form_view(form: Seq<(String, String)>) -> Seq<(Seq<char>, Seq<char>)> {
    form.map_values(|p: (String, String)| (p.0@, p.1@))
}

/// `req` is the request that asks for a token with the credentials `c`.
pub open spec fn is_request_for(req: TokenRequest, c: Credentials) -> bool {
    &&& req.url@ == TOKEN_URL@
    &&& req.user_agent@ == USER_AGENT@
    &&& req.authorization@ == basic_value(c.client_id@, c.client_secret@)
    &&& form_view(req.form@) == grant_form(c.username@, c.password@)
}

/// The client id and secret are short enough to be encoded into one header,
/// whose length must fit in one allocation.
pub open spec fn client_fits(client_id: Seq<char>, client_secret: Seq<char>) -> bool {
    encode_utf8(client_id).len() + encode_utf8(client_secret).len() < usize::MAX / 4
}

/// The request that asks for a token with the credentials `c`.
pub fn token_request(c: &Credentials) -> (r: TokenRequest)
    requires
        client_fits(c.client_id@, c.client_secret@),
    ensures
        is_request_for(r, *c),
{
    let authorization = http_basic(c.client_id.as_str(), c.client_secret.as_str());
    let mut form: Vec<(String, String)> = Vec::new();
    form.push((String::from_str("grant_type"), String::from_str("password")));
    form.push((String::from_str("username"), c.username.clone()));
    form.push((String::from_str("password"), c.password.clone()));
    let r = TokenRequest {
        url: String::from_str(TOKEN_URL),
        user_agent: String::from_str(USER_AGENT),
        authorization,
        form,
    };
    assert(form_view(r.form@) =~= grant_form(c.username@, c.password@));
    r
}

/// The client id and secret that `s` holds are short enough for
/// `token_request`; true where either is missing.
pub open spec fn secrets_fit(s: Secrets) -> bool {
    match (s.client_id, s.client_secret) {
        (Some(id), Some(secret)) => client_fits(id@, secret@),
        _ => true,
    }
}

/// The request that asks for a token with the given secrets, or the first
/// secret that is missing; in that case no request is made at all.
pub fn prepare(secrets: &Secrets) -> (r: Result<TokenRequest, ExchangeError>)
    requires
        secrets_fit(*secrets),
    ensures
        match first_missing(*secrets) {
            Some(name) => r == Err::<TokenRequest, ExchangeError>(
                ExchangeError::MissingSecret { name },
            ),
            None => r matches Ok(req) && is_request_for(
                req,
                Credentials {
                    username: secrets.username.unwrap(),
                    password: secrets.password.unwrap(),
                    client_id: secrets.client_id.unwrap(),
                    client_secret: secrets.client_secret.unwrap(),
                },
            ),
        },
{
    match credentials(secrets) {
        Ok(c) => Ok(token_request(&c)),
        Err(e) => Err(e),
    }
}

/// The string value of the member `key` of the JSON object that `body` holds:
/// `None` where `body` is not JSON, not an object, has no such member, or has
/// one that is not a string.
pub uninterp spec fn json_string_member(body: Seq<char>, key: Seq<char>) -> Option<Seq<char>>;

/// An optional string as an optional character sequence.
pub open spec fn opt_view(s: Option<String>) -> Option<Seq<char>> {
    match s {
        Some(t) => Some(t@),
        None => None,
    }
}

/// Relies on serde_json::from_str into a serde_json::Value, then
/// Value::get and Value::as_str: which string, if any, comes out depends on
/// `body` and `key` alone.
#[verifier::external_body]
fn string_member(body: &str, key: &str) -> (r: Option<String>)
    ensures
        opt_view(r) == json_string_member(body@, key@),
{
    let value = serde_json::from_str::<serde_json::Value>(body).ok()?;
    value.get(key)?.as_str().map(|s| s.to_string())
}

/// The token that a 200 reply carries, given the string value of its
/// `access_token` member, or `None` where it has none.
pub fn token_from_member(member: Option<String>) -> (r: Result<Token, ExchangeError>)
    ensures
        match member {
            Some(t) => r == Ok::<Token, ExchangeError>(Token(t)),
            None => r matches Err(ExchangeError::Decode(_)),
        },
{
    match member {
        Some(t) => Ok(Token(t)),
        None => Err(ExchangeError::Decode(String::from_str("no string field `access_token` in the reply"))),
    }
}

/// The token that the body of a 200 reply carries in `access_token`.
pub fn decode_token(body: &str) -> (r: Result<Token, ExchangeError>)
    ensures
        match json_string_member(body@, "access_token"@) {
            Some(t) => r matches Ok(tok) && tok.0@ == t,
            None => r matches Err(ExchangeError::Decode(_)),
        },
{
    token_from_member(string_member(body, "access_token"))
}

/// What came back from sending the request.
#[derive(Debug)]
pub enum Reply {
    /// No reply: the transport failed, as described.
    Failed(String),
    /// A reply with this status, and its body as text or why it could not
    /// be read.
    Answered { status: u16, body: Result<String, String> },
}

/// The result of the exchange, given what came back.
pub fn outcome(reply: Reply) -> (r: Result<Token, ExchangeError>)
    ensures
        match reply {
            Reply::Failed(d) => r == Err::<Token, ExchangeError>(ExchangeError::Transport(d)),
            Reply::Answered { status, body: Err(d) } => r == Err::<Token, ExchangeError>(
                ExchangeError::Transport(d),
            ),
            Reply::Answered { status, body: Ok(text) } => if status == 200 {
                match json_string_member(text@, "access_token"@) {
                    Some(t) => r matches Ok(tok) && tok.0@ == t,
                    None => r matches Err(ExchangeError::Decode(_)),
                }
            } else {
                r == Err::<Token, ExchangeError>(ExchangeError::Http { status, body: text })
            },
        },
{
    match reply {
        Reply::Failed(d) => Err(ExchangeError::Transport(d)),
        Reply::Answered { status, body } => match body {
            Err(d) => Err(ExchangeError::Transport(d)),
            Ok(text) => if status == 200 {
                decode_token(text.as_str())
            } else {
                Err(ExchangeError::Http { status, body: text })
            },
        },
    }
}

} // verus!
