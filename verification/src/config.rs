//! What an execution reads from its surroundings: where the service is and
//! which credentials are at hand.

use vstd::prelude::*;

verus! {

/// The characters of an optional string.
pub open spec fn text_of(o: Option<String>) -> Option<Seq<char>> {
    match o {
        Some(s) => Some(s@),
        None => None,
    }
}

/// An API key and the scheme prefix that goes before it, if any.
#[derive(Clone, Debug)]
pub struct ApiKeyCredential {
    pub prefix: Option<String>,
    pub key: String,
}

/// An `ApiKeyCredential` as sequences of characters.
pub struct ApiKeyCredentialView {
    pub prefix: Option<Seq<char>>,
    pub key: Seq<char>,
}

impl View for ApiKeyCredential {
    type V = ApiKeyCredentialView;

    open spec fn view(&self) -> ApiKeyCredentialView {
        ApiKeyCredentialView { prefix: text_of(self.prefix), key: self.key@ }
    }
}

/// The settings shared by the executions against one service.
#[derive(Clone, Debug)]
pub struct Configuration {
    /// What every request target starts with.
    pub base_path: String,
    /// The value of the `User-Agent` header.
    pub user_agent: Option<String>,
    /// User name and optional password for basic authentication.
    pub basic_auth: Option<(String, Option<String>)>,
    /// The bearer token.
    pub oauth_access_token: Option<String>,
    /// The API key.
    pub api_key: Option<ApiKeyCredential>,
}

/// A `Configuration` as sequences of characters.
pub struct ConfigurationView {
    pub base_path: Seq<char>,
    pub user_agent: Option<Seq<char>>,
    pub basic_auth: Option<(Seq<char>, Option<Seq<char>>)>,
    pub oauth_access_token: Option<Seq<char>>,
    pub api_key: Option<ApiKeyCredentialView>,
}

impl View for Configuration {
    type V = ConfigurationView;

    open spec fn view(&self) -> ConfigurationView {
        ConfigurationView {
            base_path: self.base_path@,
            user_agent: text_of(self.user_agent),
            basic_auth: match self.basic_auth {
                Some((user, password)) => Some((user@, text_of(password))),
                None => None,
            },
            oauth_access_token: text_of(self.oauth_access_token),
            api_key: match self.api_key {
                Some(credential) => Some(credential@),
                None => None,
            },
        }
    }
}

impl Configuration {
    /// Settings for the service at `base_path`, without a user agent and
    /// without credentials.
    pub fn new(base_path: String) -> (r: Configuration)
        ensures
            r@ == (ConfigurationView {
                base_path: base_path@,
                user_agent: None,
                basic_auth: None,
                oauth_access_token: None,
                api_key: None,
            }),
    {
        Configuration {
            base_path,
            user_agent: None,
            basic_auth: None,
            oauth_access_token: None,
            api_key: None,
        }
    }
}

} // verus!
