use braiinspool::client::{classify_status, request, Client, Endpoint, BASE_URL};
use braiinspool::error::Error;
use braiinspool::model::{BtcResponse, DailyRewards, UserProfile};

const REWARDS: &str = r#"{"btc":{"daily_rewards":[]}}"#;

fn expected_error(status: u16) -> Option<Error> {
    match status {
        0..=399 => None,
        400 => Some(Error::BadRequest),
        401 => Some(Error::Unauthorized),
        402 => Some(Error::UnhandledClientError),
        403 => Some(Error::Forbidden),
        404 => Some(Error::NotFound),
        405 => Some(Error::MethodNotAllowed),
        406..=428 => Some(Error::UnhandledClientError),
        429 => Some(Error::TooManyRequests),
        430..=499 => Some(Error::UnhandledClientError),
        500 => Some(Error::InternalServerError),
        501 => Some(Error::NotImplemented),
        502 => Some(Error::BadGateway),
        503 => Some(Error::ServiceUnavailable),
        504 => Some(Error::GatewayTimeout),
        _ => Some(Error::UnhandledServerError),
    }
}

#[test]
fn every_status_has_its_outcome() {
    for status in 0..=599u16 {
        assert_eq!(classify_status(status), expected_error(status), "status {}", status);
        let outcome = request::<BtcResponse<DailyRewards>>(status, REWARDS);
        match expected_error(status) {
            None => assert!(outcome.is_ok(), "status {}", status),
            Some(e) => assert_eq!(outcome.err(), Some(e), "status {}", status),
        }
    }
    assert_eq!(classify_status(600), Some(Error::UnhandledServerError));
    assert_eq!(classify_status(u16::MAX), Some(Error::UnhandledServerError));
}

#[test]
fn empty_body_under_success_is_an_empty_response() {
    let client = Client::new("apikey", None).unwrap();
    assert_eq!(client.pool_stats(200, "").err(), Some(Error::EmptyResponse));
    assert_eq!(client.user_profile(200, "").err(), Some(Error::EmptyResponse));
    assert_eq!(client.daily_rewards(204, "").err(), Some(Error::EmptyResponse));
    assert_eq!(client.workers(399, "").err(), Some(Error::EmptyResponse));
}

#[test]
fn too_many_requests_whatever_the_body() {
    let client = Client::new("apikey", None).unwrap();
    assert_eq!(client.daily_rewards(429, REWARDS).err(), Some(Error::TooManyRequests));
    assert_eq!(client.daily_rewards(429, "").err(), Some(Error::TooManyRequests));
    assert_eq!(
        client.daily_rewards(429, "Invalid Access Profile token").err(),
        Some(Error::TooManyRequests)
    );
    assert_eq!(client.daily_rewards(429, "{").err(), Some(Error::TooManyRequests));
}

#[test]
fn invalid_token_under_success_is_an_invalid_api_key() {
    let client = Client::new("apikey", None).unwrap();
    let body = r#"{"error":"Invalid Access Profile token"}"#;
    assert_eq!(client.pool_stats(200, body).err(), Some(Error::InvalidApiKey));
    assert_eq!(
        client.workers(200, "Invalid Access Profile token").err(),
        Some(Error::InvalidApiKey)
    );
    // the phrase may stand inside a document that would decode
    let body = r#"{"btc":{"daily_rewards":[]},"note":"Invalid Access Profile token"}"#;
    assert_eq!(client.daily_rewards(200, body).err(), Some(Error::InvalidApiKey));
    // any other wording goes on to decoding
    let body = r#"{"error":"invalid access profile token"}"#;
    assert!(matches!(
        request::<BtcResponse<UserProfile>>(200, body),
        Err(Error::FailedToDeserialize(_))
    ));
    let body = r#"{"error":"Invalid Access Profile toke"}"#;
    assert!(matches!(client.pool_stats(200, body), Err(Error::FailedToDeserialize(_))));
}

#[test]
fn each_named_status_error() {
    let client = Client::new("apikey", None).unwrap();
    let cases = [
        (400, Error::BadRequest),
        (401, Error::Unauthorized),
        (402, Error::UnhandledClientError),
        (403, Error::Forbidden),
        (404, Error::NotFound),
        (405, Error::MethodNotAllowed),
        (406, Error::UnhandledClientError),
        (428, Error::UnhandledClientError),
        (429, Error::TooManyRequests),
        (430, Error::UnhandledClientError),
        (499, Error::UnhandledClientError),
        (500, Error::InternalServerError),
        (501, Error::NotImplemented),
        (502, Error::BadGateway),
        (503, Error::ServiceUnavailable),
        (504, Error::GatewayTimeout),
        (505, Error::UnhandledServerError),
        (599, Error::UnhandledServerError),
    ];
    for (status, error) in cases {
        assert_eq!(client.user_profile(status, REWARDS).err(), Some(error));
    }
}

#[test]
fn messages() {
    assert_eq!(Error::EmptyResponse.message(), "Empty Response");
    assert_eq!(Error::TooManyRequests.message(), "Too Many Requests");
    assert_eq!(Error::InvalidApiKey.message(), "Invalid API Key");
    assert_eq!(Error::UnhandledServerError.message(), "Unhandled Server Error");
    assert_eq!(
        Error::FailedToDeserialize(String::from("reason")).message(),
        "Failed to deserialize: reason"
    );
    assert_eq!(Error::FailedToDeserialize(String::new()).label(), "Failed to deserialize: ");
}

#[test]
fn endpoints() {
    assert_eq!(BASE_URL, "https://pool.braiins.com");
    assert_eq!(Endpoint::PoolStats.path(), "/stats/json/btc");
    assert_eq!(Endpoint::UserProfile.path(), "/accounts/profile/json/btc");
    assert_eq!(Endpoint::DailyRewards.path(), "/accounts/rewards/json/btc");
    assert_eq!(Endpoint::Workers.path(), "/accounts/workers/json/btc");
    assert_eq!(Endpoint::PoolStats.url(), "https://pool.braiins.com/stats/json/btc");
    assert_eq!(Endpoint::Workers.url(), "https://pool.braiins.com/accounts/workers/json/btc");
}
