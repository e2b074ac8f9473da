//! Authentication strategies and what each of them adds to a request.

use crate::config::{text_of, Configuration, ConfigurationView};
use crate::encoding::{base64_of_text, base64_text};
use vstd::prelude::*;
use vstd::string::StringExecFns;
use vstd::utf8::encode_utf8;

verus! {

/// A credential under its scheme: the credential alone, or the scheme
/// prefix, one space, and the credential.
pub open spec fn api_key_text(prefix: Option<Seq<char>>, key: Seq<char>) -> Seq<char> {
    match prefix {
        None => key,
        Some(p) => p + seq![' '] + key,
    }
}

/// The text that basic authentication encodes: the user name alone, or the
/// user name, a colon, and the password.
pub open spec fn basic_credentials(user: Seq<char>, password: Option<Seq<char>>) -> Seq<char> {
    match password {
        None => user,
        Some(p) => user + seq![':'] + p,
    }
}

/// How an API key credential is attached to a request.
#[derive(Clone, Debug)]
pub struct ApiKey {
    pub in_header: bool,
    pub in_query: bool,
    pub param_name: String,
}

/// An `ApiKey` with its name as a sequence of characters.
pub struct ApiKeyView {
    pub in_header: bool,
    pub in_query: bool,
    pub param_name: Seq<char>,
}

impl View for ApiKey {
    type V = ApiKeyView;

    open spec fn view(&self) -> ApiKeyView {
        ApiKeyView {
            in_header: self.in_header,
            in_query: self.in_query,
            param_name: self.param_name@,
        }
    }
}

impl ApiKey {
    /// Computes the credential text for `key` under an optional scheme `prefix`.
    pub fn key(&self, prefix: &Option<String>, key: &str) -> (r: String)
        ensures
            r@ == api_key_text(text_of(*prefix), key@),
    {
        match prefix {
            None => key.to_owned(),
            Some(p) => {
                let mut text = p.clone();
                proof {
                    reveal_strlit(" ");
                }
                text.append(" ");
                text.append(key);
                assert(text@ =~= p@ + seq![' '] + key@);
                text
            },
        }
    }
}

/// The text that basic authentication encodes for `user` and `password`.
pub fn basic_credentials_text(user: &str, password: &Option<String>) -> (r: String)
    ensures
        r@ == basic_credentials(user@, text_of(*password)),
{
    let mut credentials = user.to_owned();
    match password {
        Some(p) => {
            proof {
                reveal_strlit(":");
            }
            credentials.append(":");
            credentials.append(p.as_str());
            assert(credentials@ =~= user@ + seq![':'] + p@);
        },
        None => {},
    }
    credentials
}

/// The value of an `Authorization` header: the scheme, one space, and the
/// credential.
pub fn authorization_value(scheme: &str, credential: &str) -> (r: String)
    ensures
        r@ == scheme@ + seq![' '] + credential@,
{
    let mut value = scheme.to_owned();
    proof {
        reveal_strlit(" ");
    }
    value.append(" ");
    value.append(credential);
    assert(value@ =~= scheme@ + seq![' '] + credential@);
    value
}

/// The authentication strategy of a request.
#[derive(Clone, Debug)]
pub enum Auth {
    NoAuth,
    ApiKey(ApiKey),
    Basic,
    Oauth,
}

/// An `Auth` over sequences of characters.
pub enum AuthView {
    NoAuth,
    ApiKey(ApiKeyView),
    Basic,
    Oauth,
}

impl View for Auth {
    type V = AuthView;

    open spec fn view(&self) -> AuthView {
        match self {
            Auth::NoAuth => AuthView::NoAuth,
            Auth::ApiKey(k) => AuthView::ApiKey(k@),
            Auth::Basic => AuthView::Basic,
            Auth::Oauth => AuthView::Oauth,
        }
    }
}

/// The value of the `Authorization` header that the strategy asks for:
/// `Basic` and the base64 text of the credentials, or `Bearer` and the
/// token. There is none where the configuration lacks the credential.
pub open spec fn authorization(auth: AuthView, conf: ConfigurationView) -> Option<Seq<char>> {
    match auth {
        AuthView::Basic => match conf.basic_auth {
            Some((user, password)) => Some(
                "Basic"@ + seq![' '] + base64_text(encode_utf8(basic_credentials(user, password))),
            ),
            None => None,
        },
        AuthView::Oauth => match conf.oauth_access_token {
            Some(token) => Some("Bearer"@ + seq![' '] + token),
            None => None,
        },
        _ => None,
    }
}

/// The name and the credential text of the API key, where the strategy is
/// an API key and the configuration holds one.
pub open spec fn api_key_pair(auth: AuthView, conf: ConfigurationView) -> Option<
    (Seq<char>, Seq<char>),
> {
    match auth {
        AuthView::ApiKey(k) => match conf.api_key {
            Some(credential) => Some(
                (k.param_name, api_key_text(credential.prefix, credential.key)),
            ),
            None => None,
        },
        _ => None,
    }
}

/// The query pair that the strategy adds.
pub open spec fn auth_query_pair(auth: AuthView, conf: ConfigurationView) -> Option<
    (Seq<char>, Seq<char>),
> {
    match auth {
        AuthView::ApiKey(k) => if k.in_query {
            api_key_pair(auth, conf)
        } else {
            None
        },
        _ => None,
    }
}

/// The header, other than `Authorization`, that the strategy adds.
pub open spec fn auth_header_pair(auth: AuthView, conf: ConfigurationView) -> Option<
    (Seq<char>, Seq<char>),
> {
    match auth {
        AuthView::ApiKey(k) => if k.in_header {
            api_key_pair(auth, conf)
        } else {
            None
        },
        _ => None,
    }
}

/// The characters of an optional pair of strings.
pub open spec fn pair_of(o: Option<(String, String)>) -> Option<(Seq<char>, Seq<char>)> {
    match o {
        Some((name, value)) => Some((name@, value@)),
        None => None,
    }
}

impl Auth {
    /// The value of the `Authorization` header that this strategy asks for
    /// under `conf`.
    pub fn authorization(&self, conf: &Configuration) -> (r: Option<String>)
        ensures
            text_of(r) == authorization(self@, conf@),
    {
        match self {
            Auth::Basic => match &conf.basic_auth {
                Some((user, password)) => {
                    let credentials = basic_credentials_text(user.as_str(), password);
                    let encoded = base64_of_text(credentials.as_str());
                    Some(authorization_value("Basic", encoded.as_str()))
                },
                None => None,
            },
            Auth::Oauth => match &conf.oauth_access_token {
                Some(token) => Some(authorization_value("Bearer", token.as_str())),
                None => None,
            },
            _ => None,
        }
    }

    fn key_pair(key: &ApiKey, conf: &Configuration) -> (r: Option<(String, String)>)
        ensures
            pair_of(r) == api_key_pair(AuthView::ApiKey(key@), conf@),
    {
        match &conf.api_key {
            Some(credential) => Some(
                (key.param_name.clone(), key.key(&credential.prefix, credential.key.as_str())),
            ),
            None => None,
        }
    }

    /// The query pair that this strategy adds under `conf`.
    pub fn query_pair(&self, conf: &Configuration) -> (r: Option<(String, String)>)
        ensures
            pair_of(r) == auth_query_pair(self@, conf@),
    {
        match self {
            Auth::ApiKey(key) => if key.in_query {
                Auth::key_pair(key, conf)
            } else {
                None
            },
            _ => None,
        }
    }

    /// The header, other than `Authorization`, that this strategy adds
    /// under `conf`.
    pub fn header_pair(&self, conf: &Configuration) -> (r: Option<(String, String)>)
        ensures
            pair_of(r) == auth_header_pair(self@, conf@),
    {
        match self {
            Auth::ApiKey(key) => if key.in_header {
                Auth::key_pair(key, conf)
            } else {
                None
            },
            _ => None,
        }
    }
}

} // verus!
