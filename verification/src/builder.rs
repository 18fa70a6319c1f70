//! Braiins Pool client builder

use vstd::prelude::*;
use vstd::string::{StringExecFns, StringSliceAdditionalSpecFns};
use vstd::utf8::encode_utf8;

use crate::ascii::{DELETE, SPACE, TAB};
use crate::client::{Client, ClientSettings};
use crate::error::Error;

verus! {

/// The time that a request may take unless the builder is told otherwise,
/// in seconds.
pub const DEFAULT_TIMEOUT: u64 = 60;

/// The scheme under which the proxy is addressed: SOCKS5, with names
/// resolved by the proxy.
pub const PROXY_SCHEME: &'static str = "socks5h://";

/// A byte that may stand in the value of an HTTP header: a tab, or any
/// byte from the space on but for the delete character.
pub open spec fn header_byte(b: u8) -> bool {
    (b >= SPACE && b != DELETE) || b == TAB
}

/// A text that may be sent as the value of an HTTP header.
pub open spec fn header_text(bytes: Seq<u8>) -> bool {
    forall|i: int| 0 <= i < bytes.len() ==> header_byte(#[trigger] bytes[i])
}

/// The error with which `url::Url::parse` refuses a text; none where it
/// takes the text for a URL.
pub uninterp spec fn url_parse_error(text: Seq<char>) -> Option<url::ParseError>;

/// Asks `reqwest::header::HeaderValue::from_str` whether it takes a text.
///
/// It refuses a text exactly when one of its bytes is below the space and
/// no tab, or is the delete character.
#[verifier::external_body]
fn header_value_accepts(value: &str) -> (r: bool)
    ensures
        r == header_text(value.spec_bytes()),
{
    reqwest::header::HeaderValue::from_str(value).is_ok()
}

/// Asks `url::Url::parse` whether it takes a text for a URL.
///
/// The answer is a function of the text alone: the error is the one named
/// by [`url_parse_error`].
#[verifier::external_body]
fn check_url(text: &str) -> (r: Result<(), url::ParseError>)
    ensures
        r == match url_parse_error(text@) {
            Some(e) => Err::<(), url::ParseError>(e),
            None => Ok::<(), url::ParseError>(()),
        },
{
    url::Url::parse(text).map(|_| ())
}

/// The error for which a client cannot be built from an API key and the
/// address of a proxy: the key is empty or cannot be sent in a header, or
/// the address does not make a URL. None where the client can be built.
pub open spec fn build_error(api_key: Seq<char>, proxy: Option<Seq<char>>) -> Option<Error> {
    if api_key.len() == 0 {
        Some(Error::EmptyApiKey)
    } else if !header_text(encode_utf8(api_key)) {
        Some(Error::InvalidHeaderValue)
    } else {
        match proxy {
            Some(address) => match url_parse_error(PROXY_SCHEME@ + address) {
                Some(e) => Some(Error::Url(e)),
                None => None,
            },
            None => None,
        }
    }
}

/// Whether `r` is what building a client from the given settings comes
/// to.
pub open spec fn configured(
    api_key: Seq<char>,
    timeout: u64,
    proxy: Option<Seq<char>>,
    r: Result<Client, Error>,
) -> bool {
    match r {
        Ok(client) => build_error(api_key, proxy) is None && client@ == (ClientSettings {
            api_key,
            timeout,
            proxy: match proxy {
                Some(address) => Some(PROXY_SCHEME@ + address),
                None => None,
            },
        }),
        Err(e) => build_error(api_key, proxy) == Some(e),
    }
}

/// Decides on the API key, given whether it can be sent in a header.
pub fn check_api_key(api_key: &str, accepted: bool) -> (r: Result<(), Error>)
    ensures
        r == (if api_key@.len() == 0 {
            Err::<(), Error>(Error::EmptyApiKey)
        } else if !accepted {
            Err::<(), Error>(Error::InvalidHeaderValue)
        } else {
            Ok::<(), Error>(())
        }),
{
    if api_key.is_empty() {
        Err(Error::EmptyApiKey)
    } else if !accepted {
        Err(Error::InvalidHeaderValue)
    } else {
        Ok(())
    }
}

/// Decides on the URL of the proxy, given what the URL parser made of it.
pub fn check_proxy(url: String, parsed: Result<(), url::ParseError>) -> (r: Result<String, Error>)
    ensures
        r == match parsed {
            Ok(_) => Ok::<String, Error>(url),
            Err(e) => Err::<String, Error>(Error::Url(e)),
        },
{
    match parsed {
        Ok(_) => Ok(url),
        Err(e) => Err(Error::Url(e)),
    }
}

/// Braiins Pool client builder
#[derive(Debug, Clone)]
pub struct BraiinsPoolClientBuilder {
    /// API key
    pub api_key: String,
    /// Timeout, in seconds
    pub timeout: u64,
    /// Address of a SOCKS5 proxy: a host and a port
    pub proxy: Option<String>,
}

impl BraiinsPoolClientBuilder {
    /// The address of the proxy, as text.
    pub open spec fn spec_proxy(self) -> Option<Seq<char>> {
        match self.proxy {
            Some(address) => Some(address@),
            None => None,
        }
    }

    /// Construct a new builder
    pub fn new(api_key: &str) -> (r: Self)
        ensures
            r.api_key@ == api_key@,
            r.timeout == DEFAULT_TIMEOUT,
            r.proxy is None,
    {
        BraiinsPoolClientBuilder {
            api_key: String::from_str(api_key),
            timeout: DEFAULT_TIMEOUT,
            proxy: None,
        }
    }

    /// Set timeout, in seconds (default: 60 sec)
    pub fn timeout(self, timeout: u64) -> (r: Self)
        ensures
            r.api_key == self.api_key,
            r.timeout == timeout,
            r.proxy == self.proxy,
    {
        BraiinsPoolClientBuilder { api_key: self.api_key, timeout, proxy: self.proxy }
    }

    /// Set proxy
    pub fn proxy(self, proxy: &str) -> (r: Self)
        ensures
            r.api_key == self.api_key,
            r.timeout == self.timeout,
            r.spec_proxy() == Some(proxy@),
    {
        BraiinsPoolClientBuilder {
            api_key: self.api_key,
            timeout: self.timeout,
            proxy: Some(String::from_str(proxy)),
        }
    }

    /// Build client
    pub fn build(self) -> (r: Result<Client, Error>)
        ensures
            configured(self.api_key@, self.timeout, self.spec_proxy(), r),
    {
        let accepted = header_value_accepts(self.api_key.as_str());
        match check_api_key(self.api_key.as_str(), accepted) {
            Err(e) => {
                return Err(e);
            },
            Ok(_) => {},
        }
        let proxy = match self.proxy {
            Some(address) => {
                let url = String::from_str(PROXY_SCHEME).concat(address.as_str());
                let parsed = check_url(url.as_str());
                match check_proxy(url, parsed) {
                    Ok(url) => Some(url),
                    Err(e) => {
                        return Err(e);
                    },
                }
            },
            None => None,
        };
        Ok(Client::from_settings(self.api_key, self.timeout, proxy))
    }
}

} // verus!
