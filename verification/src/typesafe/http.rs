//! Configuration of the HTTP System One client and the reading of its
//! replies.
//!
//! Endpoint: `POST {base_url}/v1/systemone` with `Authorization: Bearer
//! <TYPESAFE_API_KEY>`. Sending the request is the caller's transport.

use vstd::prelude::*;

use super::api::SystemOneResponse;
use crate::error::TypesafeError;
use crate::text::{is_blank, trim_end_char, trim_end_char_seq, trim_seq};

verus! {

/// Default API base URL.
pub const DEFAULT_BASE_URL: &'static str = "https://api.typesafe.ai";

/// Environment variable holding the API key.
pub const API_KEY_ENV: &'static str = "TYPESAFE_API_KEY";

/// Optional override of the API host (proxies, staging).
pub const BASE_URL_ENV: &'static str = "TYPESAFE_BASE_URL";

/// Where and how to reach System One.
pub struct HttpTypesafeClient {
    /// Base URL without trailing slashes.
    pub base_url: String,
    pub api_key: String,
}

impl HttpTypesafeClient {
    pub fn new(base_url: &str, api_key: &str) -> (c: Self)
        ensures
            c.base_url@ == trim_end_char_seq(base_url@, '/'),
            c.api_key@ == api_key@,
    {
        HttpTypesafeClient { base_url: trim_end_char(base_url, '/'), api_key: api_key.to_owned() }
    }

    /// The client configured from the environment's values: the API key is
    /// required and must not be blank; the base URL defaults to
    /// [`DEFAULT_BASE_URL`].
    pub fn from_env_values(api_key: Option<String>, base_url: Option<String>) -> (r: Result<Self, TypesafeError>)
        ensures
            (api_key is None || trim_seq(api_key.unwrap()@).len() == 0) ==> r matches Err(TypesafeError::MissingApiKey),
            !(api_key is None || trim_seq(api_key.unwrap()@).len() == 0) ==> (r matches Ok(c) && c.api_key@
                == api_key.unwrap()@ && c.base_url@ == trim_end_char_seq(
                match base_url {
                    Some(b) => b@,
                    None => DEFAULT_BASE_URL@,
                },
                '/',
            )),
    {
        let key = match api_key {
            Some(k) => k,
            None => {
                return Err(TypesafeError::MissingApiKey);
            },
        };
        if is_blank(key.as_str()) {
            return Err(TypesafeError::MissingApiKey);
        }
        let base = match base_url {
            Some(b) => b,
            None => DEFAULT_BASE_URL.to_owned(),
        };
        Ok(HttpTypesafeClient::new(base.as_str(), key.as_str()))
    }

    /// The System One endpoint.
    pub fn endpoint(&self) -> (r: String)
        ensures
            r@ == self.base_url@ + "/v1/systemone"@,
    {
        let mut r = self.base_url.clone();
        r.append("/v1/systemone");
        r
    }

    /// The `Authorization` header value.
    pub fn bearer(&self) -> (r: String)
        ensures
            r@ == "Bearer "@ + self.api_key@,
    {
        let mut r = "Bearer ".to_owned();
        r.append(self.api_key.as_str());
        r
    }
}

/// Reads System One's reply: a non-2xx status is an API error carrying the
/// body; otherwise the body must decode (`decoded`, or the decoder's
/// complaint).
pub fn response_from_reply(status: u16, body: &str, decoded: Result<SystemOneResponse, String>) -> (r: Result<
    SystemOneResponse,
    TypesafeError,
>)
    ensures
        !(200 <= status < 300) ==> (r matches Err(TypesafeError::Api { status: s, body: b }) && s == status && b@
            == body@),
        200 <= status < 300 ==> match decoded {
            Ok(resp) => r == Ok::<SystemOneResponse, TypesafeError>(resp),
            Err(e) => r matches Err(TypesafeError::Serde(m)) && m@ == e@,
        },
{
    if !(200 <= status && status < 300) {
        return Err(TypesafeError::Api { status, body: body.to_owned() });
    }
    match decoded {
        Ok(resp) => Ok(resp),
        Err(e) => Err(TypesafeError::Serde(e)),
    }
}

} // verus!
