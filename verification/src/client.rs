//! Braiins Pool client
//!
//! The client does no I/O of its own. For each operation it names the
//! request to send, and it turns the status and body of the answer into
//! the typed result. Sending the request is the caller's part.

use vstd::prelude::*;
use vstd::string::StringExecFns;
use vstd::utf8::encode_utf8;

use crate::builder::{configured, BraiinsPoolClientBuilder, DEFAULT_TIMEOUT};
use crate::error::Error;
use crate::field::member_fits;
use crate::json::{document, Json};
use crate::model::{BtcResponse, DailyRewards, FromJson, PoolStats, Record, UserProfile, Workers};
use crate::text::{occurs_in, str_contains};

verus! {

/// The origin of the pool's API.
pub const BASE_URL: &'static str = "https://pool.braiins.com";

/// The header that carries the API key.
pub const AUTH_HEADER: &'static str = "Pool-Auth-Token";

/// The phrase by which the pool says, under a success status, that it
/// does not know the API key. The match on this phrase is all there is to
/// go by; should the pool word its answer otherwise, the answer is taken
/// for a document and fails to decode.
pub const INVALID_TOKEN_PHRASE: &'static str = "Invalid Access Profile token";

/// The four read operations.
#[derive(Debug, Clone, Copy, PartialEq, Eq, Structural)]
pub enum Endpoint {
    /// Pool statistics
    PoolStats,
    /// The user's profile
    UserProfile,
    /// The user's daily rewards
    DailyRewards,
    /// The user's workers
    Workers,
}

impl Endpoint {
    /// The path of the operation's resource.
    pub open spec fn spec_path(self) -> Seq<char> {
        match self {
            Endpoint::PoolStats => "/stats/json/btc"@,
            Endpoint::UserProfile => "/accounts/profile/json/btc"@,
            Endpoint::DailyRewards => "/accounts/rewards/json/btc"@,
            Endpoint::Workers => "/accounts/workers/json/btc"@,
        }
    }

    /// The path of the operation's resource.
    pub fn path(&self) -> (r: &'static str)
        ensures
            r@ == self.spec_path(),
    {
        match self {
            Endpoint::PoolStats => "/stats/json/btc",
            Endpoint::UserProfile => "/accounts/profile/json/btc",
            Endpoint::DailyRewards => "/accounts/rewards/json/btc",
            Endpoint::Workers => "/accounts/workers/json/btc",
        }
    }

    /// The URL to which the operation sends its `GET`.
    pub fn url(&self) -> (r: String)
        ensures
            r@ == BASE_URL@ + self.spec_path(),
    {
        String::from_str(BASE_URL).concat(self.path())
    }
}

/// The error that a status stands for; none for a status up to 399, on
/// which the body decides.
///
/// | Status                 | Error                  |
/// |------------------------|------------------------|
/// | 400                    | `BadRequest`           |
/// | 401                    | `Unauthorized`         |
/// | 402, 406-428, 430-499  | `UnhandledClientError` |
/// | 403                    | `Forbidden`            |
/// | 404                    | `NotFound`             |
/// | 405                    | `MethodNotAllowed`     |
/// | 429                    | `TooManyRequests`      |
/// | 500                    | `InternalServerError`  |
/// | 501                    | `NotImplemented`       |
/// | 502                    | `BadGateway`           |
/// | 503                    | `ServiceUnavailable`   |
/// | 504                    | `GatewayTimeout`       |
/// | 505 and above          | `UnhandledServerError` |
pub open spec fn status_error(status: u16) -> Option<Error> {
    if status <= 399 {
        None
    } else if status == 400 {
        Some(Error::BadRequest)
    } else if status == 401 {
        Some(Error::Unauthorized)
    } else if status == 402 || 406 <= status <= 428 || 430 <= status <= 499 {
        Some(Error::UnhandledClientError)
    } else if status == 403 {
        Some(Error::Forbidden)
    } else if status == 404 {
        Some(Error::NotFound)
    } else if status == 405 {
        Some(Error::MethodNotAllowed)
    } else if status == 429 {
        Some(Error::TooManyRequests)
    } else if status == 500 {
        Some(Error::InternalServerError)
    } else if status == 501 {
        Some(Error::NotImplemented)
    } else if status == 502 {
        Some(Error::BadGateway)
    } else if status == 503 {
        Some(Error::ServiceUnavailable)
    } else if status == 504 {
        Some(Error::GatewayTimeout)
    } else {
        Some(Error::UnhandledServerError)
    }
}

/// The error that a body stands for under a success status, before any
/// decoding: an empty body, or one that holds [`INVALID_TOKEN_PHRASE`].
pub open spec fn body_error(body: Seq<char>) -> Option<Error> {
    if body.len() == 0 {
        Some(Error::EmptyResponse)
    } else if occurs_in(encode_utf8(body), encode_utf8(INVALID_TOKEN_PHRASE@)) {
        Some(Error::InvalidApiKey)
    } else {
        None
    }
}

/// Whether `r` is the result of decoding the text `data` as a `T`.
pub open spec fn decoded<T: FromJson>(data: Seq<char>, r: Result<T, Error>) -> bool {
    match r {
        Ok(v) => document(data) matches Some(j) && T::decodable(j) && v.decodes(j),
        Err(e) => e is FailedToDeserialize && !(document(data) matches Some(j) && T::decodable(j)),
    }
}

/// Whether `r` is the result of an answer with the given status and body.
pub open spec fn answered<T: FromJson>(status: u16, body: Seq<char>, r: Result<T, Error>) -> bool {
    match status_error(status) {
        Some(e) => r == Err::<T, Error>(e),
        None => match body_error(body) {
            Some(e) => r == Err::<T, Error>(e),
            None => decoded(body, r),
        },
    }
}

/// A text is not decoded to a record where it is no JSON document, or a
/// member that the record requires is missing from the document, has the
/// wrong JSON type, or holds a text that is not what the member is to
/// hold, such as a decimal amount that is no decimal literal. The failure
/// is then [`Error::FailedToDeserialize`].
pub proof fn lemma_unfit_member_fails<T: Record>(
    data: Seq<char>,
    key: Seq<char>,
    r: Result<T, Error>,
)
    requires
        decoded(data, r),
        T::required().contains_key(key),
        document(data) matches Some(j) ==> !member_fits(j, key, T::required()[key]),
    ensures
        r matches Err(e) && e is FailedToDeserialize,
{
    match document(data) {
        Some(j) => {
            T::lemma_required(j, key);
        },
        None => {},
    }
}

/// The same for a record inside its envelope: the answer is not decoded
/// where the envelope is missing, or the record in it lacks a required
/// member or holds it in the wrong shape.
pub proof fn lemma_unfit_payload_fails<T: Record>(
    data: Seq<char>,
    key: Seq<char>,
    r: Result<BtcResponse<T>, Error>,
)
    requires
        decoded(data, r),
        T::required().contains_key(key),
        document(data) matches Some(j) ==> !(j.member("btc"@) matches Some(payload) && member_fits(
            payload,
            key,
            T::required()[key],
        )),
    ensures
        r matches Err(e) && e is FailedToDeserialize,
{
    match document(data) {
        Some(j) => match j.member("btc"@) {
            Some(payload) => {
                T::lemma_required(payload, key);
            },
            None => {},
        },
        None => {},
    }
}

/// Every status has one outcome, and the three ranges of statuses have
/// three kinds of outcome: up to 399 the body decides, from 400 to 499
/// the outcome is a client error, from 500 on a server error.
pub proof fn lemma_status_classes(status: u16)
    ensures
        status <= 399 <==> status_error(status) is None,
        400 <= status <= 499 <==> (status_error(status) matches Some(e) && e.is_client_error()),
        500 <= status <==> (status_error(status) matches Some(e) && e.is_server_error()),
{
}

/// A status from 400 on decides the outcome whatever the body holds.
pub proof fn lemma_status_overrides_body<T: FromJson>(
    status: u16,
    body: Seq<char>,
    other: Seq<char>,
    r: Result<T, Error>,
)
    requires
        status >= 400,
        answered(status, body, r),
    ensures
        answered(status, other, r),
        r is Err,
{
}

/// The error that a status stands for.
pub fn classify_status(status: u16) -> (r: Option<Error>)
    ensures
        r == status_error(status),
{
    match status {
        0..=399 => None,
        400 => Some(Error::BadRequest),
        401 => Some(Error::Unauthorized),
        402 => Some(Error::UnhandledClientError),
        403 => Some(Error::Forbidden),
        404 => Some(Error::NotFound),
        405 => Some(Error::MethodNotAllowed),
        406..=428 => Some(Error::UnhandledClientError),
        429 => Some(Error::TooManyRequests),
        430..=499 => Some(Error::UnhandledClientError),
        500 => Some(Error::InternalServerError),
        501 => Some(Error::NotImplemented),
        502 => Some(Error::BadGateway),
        503 => Some(Error::ServiceUnavailable),
        504 => Some(Error::GatewayTimeout),
        _ => Some(Error::UnhandledServerError),
    }
}

/// Decodes a JSON text as a `T`.
pub fn deserialize<T: FromJson>(data: &str) -> (r: Result<T, Error>)
    ensures
        decoded(data@, r),
{
    match Json::parse(data) {
        Ok(json) => match T::from_json(&json) {
            Some(value) => Ok(value),
            None => Err(
                Error::FailedToDeserialize(
                    String::from_str("the document does not have the expected shape"),
                ),
            ),
        },
        Err(reason) => Err(Error::FailedToDeserialize(reason)),
    }
}

/// Turns the status and the body of an answer into a `T` or an error.
///
/// The body is looked at only under a status up to 399.
pub fn request<T: FromJson>(status: u16, body: &str) -> (r: Result<T, Error>)
    ensures
        answered(status, body@, r),
{
    match classify_status(status) {
        Some(e) => Err(e),
        None => {
            if body.is_empty() {
                return Err(Error::EmptyResponse);
            }
            if str_contains(body, INVALID_TOKEN_PHRASE) {
                return Err(Error::InvalidApiKey);
            }
            deserialize::<T>(body)
        },
    }
}

/// Takes the payload out of its envelope.
pub fn unwrap_envelope<T>(r: Result<BtcResponse<T>, Error>) -> (out: Result<T, Error>)
    ensures
        out == match r {
            Ok(envelope) => Ok::<T, Error>(envelope.btc),
            Err(e) => Err::<T, Error>(e),
        },
{
    match r {
        Ok(envelope) => Ok(envelope.btc),
        Err(e) => Err(e),
    }
}

/// Whether `r` is the result of an answer whose payload stands in the
/// envelope.
pub open spec fn answered_in_envelope<T: FromJson>(
    status: u16,
    body: Seq<char>,
    r: Result<T, Error>,
) -> bool {
    match r {
        Ok(v) => answered(status, body, Ok::<BtcResponse<T>, Error>(BtcResponse { btc: v })),
        Err(e) => answered(status, body, Err::<BtcResponse<T>, Error>(e)),
    }
}

/// What a [`Client`] is set up with.
pub struct ClientSettings {
    /// The API key
    pub api_key: Seq<char>,
    /// The time that a request may take, in seconds
    pub timeout: u64,
    /// The URL of the proxy
    pub proxy: Option<Seq<char>>,
}

/// Braiins Pool client
#[derive(Clone)]
pub struct Client {
    api_key: String,
    timeout: u64,
    proxy: Option<String>,
}

impl View for Client {
    type V = ClientSettings;

    closed spec fn view(&self) -> ClientSettings {
        ClientSettings {
            api_key: self.api_key@,
            timeout: self.timeout,
            proxy: match self.proxy {
                Some(url) => Some(url@),
                None => None,
            },
        }
    }
}

impl Client {
    /// A client with the given settings, none of them checked.
    pub(crate) fn from_settings(api_key: String, timeout: u64, proxy: Option<String>) -> (r:
        Client)
        ensures
            r@ == (ClientSettings {
                api_key: api_key@,
                timeout,
                proxy: match proxy {
                    Some(url) => Some(url@),
                    None => None,
                },
            }),
    {
        Client { api_key, timeout, proxy }
    }

    /// Create a new `Client` with the default timeout.
    ///
    /// `proxy` is the address of a SOCKS5 proxy, such as `127.0.0.1:9050`.
    pub fn new(api_key: &str, proxy: Option<&str>) -> (r: Result<Client, Error>)
        ensures
            configured(
                api_key@,
                DEFAULT_TIMEOUT,
                match proxy {
                    Some(address) => Some(address@),
                    None => None,
                },
                r,
            ),
    {
        let builder = BraiinsPoolClientBuilder::new(api_key);
        match proxy {
            Some(address) => builder.proxy(address).build(),
            None => builder.build(),
        }
    }

    /// The API key, to be sent as the value of [`AUTH_HEADER`] and shown
    /// nowhere else.
    pub fn api_key(&self) -> (r: &str)
        ensures
            r@ == self@.api_key,
    {
        self.api_key.as_str()
    }

    /// The time that a request may take, in seconds.
    pub fn timeout(&self) -> (r: u64)
        ensures
            r == self@.timeout,
    {
        self.timeout
    }

    /// The URL of the proxy through which requests go, if any.
    pub fn proxy(&self) -> (r: Option<&str>)
        ensures
            match r {
                Some(url) => self@.proxy == Some(url@),
                None => self@.proxy is None,
            },
    {
        match &self.proxy {
            Some(url) => Some(url.as_str()),
            None => None,
        }
    }

    /// Get Pool Stats, from the answer to a `GET` of
    /// [`Endpoint::PoolStats`].
    pub fn pool_stats(&self, status: u16, body: &str) -> (r: Result<PoolStats, Error>)
        ensures
            answered_in_envelope(status, body@, r),
    {
        unwrap_envelope(request::<BtcResponse<PoolStats>>(status, body))
    }

    /// Get User Profile, from the answer to a `GET` of
    /// [`Endpoint::UserProfile`].
    pub fn user_profile(&self, status: u16, body: &str) -> (r: Result<UserProfile, Error>)
        ensures
            answered_in_envelope(status, body@, r),
    {
        unwrap_envelope(request::<BtcResponse<UserProfile>>(status, body))
    }

    /// Get Daily Rewards, from the answer to a `GET` of
    /// [`Endpoint::DailyRewards`].
    pub fn daily_rewards(&self, status: u16, body: &str) -> (r: Result<DailyRewards, Error>)
        ensures
            answered_in_envelope(status, body@, r),
    {
        unwrap_envelope(request::<BtcResponse<DailyRewards>>(status, body))
    }

    /// Get Workers, from the answer to a `GET` of [`Endpoint::Workers`].
    pub fn workers(&self, status: u16, body: &str) -> (r: Result<Workers, Error>)
        ensures
            answered_in_envelope(status, body@, r),
    {
        unwrap_envelope(request::<BtcResponse<Workers>>(status, body))
    }
}

} // verus!
