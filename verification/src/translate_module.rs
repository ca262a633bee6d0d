//! The client of the DeepL translation service.

use deepl::DeepLApi;
use vstd::prelude::*;

verus! {

#[verifier::external_type_specification]
#[verifier::external_body]
pub struct ExDeepLApi(deepl::DeepLApi);

/// A client of DeepL, with the API key it authenticates with.
pub struct DeeplClient {
    api: DeepLApi,
    key: String,
}

impl DeeplClient {
    /// The API key that the client sends as `Authorization: DeepL-Auth-Key {key}`.
    pub closed spec fn key(&self) -> Seq<char> {
        self.key@
    }

    /// The HTTP client.
    pub fn api(&self) -> &DeepLApi {
        &self.api
    }
}

/// Calls `deepl::DeepLApi::with(&api_key).new()`, which builds the HTTPS
/// client for the free or the paid endpoint as the key says and stores the
/// key for its `Authorization` header, and keeps the key beside it. Claimed:
/// the key kept is the argument. Nothing more is claimed of the client. The
/// source panics where the TLS backend of `reqwest` cannot be set up, which
/// no argument decides.
#[verifier::external_body]
fn new_deepl_api(api_key: &str) -> (r: DeeplClient)
    ensures
        r.key() == api_key@,
{
    DeeplClient { api: DeepLApi::with(api_key).new(), key: api_key.to_string() }
}

/// The client of DeepL, once an API key was given.
pub struct DeeplModule {
    api: Option<DeeplClient>,
}

impl DeeplModule {
    /// The API key of the client, where one was given.
    pub closed spec fn key(&self) -> Option<Seq<char>> {
        match self.api {
            Some(c) => Some(c.key()),
            None => None,
        }
    }

    pub open spec fn is_connected(&self) -> bool {
        self.key() is Some
    }

    /// A client without an API key.
    pub fn new() -> (r: Self)
        ensures
            r.key() is None,
    {
        Self { api: None }
    }

    /// Sets the API key.
    pub fn connect(&mut self, api_key: String)
        ensures
            final(self).key() == Some(api_key@),
    {
        self.api = Some(new_deepl_api(api_key.as_str()));
    }

    /// The API client, where a key was given.
    pub fn api(&self) -> (r: Option<&DeepLApi>)
        ensures
            r is Some <==> self.is_connected(),
    {
        match &self.api {
            Some(c) => Some(c.api()),
            None => None,
        }
    }
}

} // verus!
