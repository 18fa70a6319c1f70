use braiinspool::builder::{
    check_api_key, check_proxy, BraiinsPoolClientBuilder, DEFAULT_TIMEOUT, PROXY_SCHEME,
};
use braiinspool::client::{Client, AUTH_HEADER};
use braiinspool::error::Error;
use braiinspool::json::Json;
use braiinspool::table::Table;
use url::ParseError;

#[test]
fn defaults() {
    let builder = BraiinsPoolClientBuilder::new("apikey");
    assert_eq!(builder.api_key, "apikey");
    assert_eq!(builder.timeout, 60);
    assert_eq!(DEFAULT_TIMEOUT, 60);
    assert_eq!(builder.proxy, None);
    let client = builder.build().unwrap();
    assert_eq!(client.api_key(), "apikey");
    assert_eq!(client.timeout(), 60);
    assert_eq!(client.proxy(), None);
    assert_eq!(AUTH_HEADER, "Pool-Auth-Token");
}

#[test]
fn settings_are_kept() {
    let client = BraiinsPoolClientBuilder::new("apikey")
        .timeout(5)
        .proxy("127.0.0.1:9050")
        .build()
        .unwrap();
    assert_eq!(client.api_key(), "apikey");
    assert_eq!(client.timeout(), 5);
    assert_eq!(client.proxy(), Some("socks5h://127.0.0.1:9050"));
    assert_eq!(PROXY_SCHEME, "socks5h://");
    let client = Client::new("apikey", Some("[::1]:9050")).unwrap();
    assert_eq!(client.proxy(), Some("socks5h://[::1]:9050"));
    assert_eq!(client.timeout(), 60);
    let copy = client.clone();
    assert_eq!(copy.api_key(), "apikey");
}

#[test]
fn api_key_must_not_be_empty() {
    assert_eq!(BraiinsPoolClientBuilder::new("").build().err(), Some(Error::EmptyApiKey));
    assert_eq!(Client::new("", Some("127.0.0.1:9050")).err(), Some(Error::EmptyApiKey));
    assert_eq!(check_api_key("", true), Err(Error::EmptyApiKey));
    assert_eq!(check_api_key("", false), Err(Error::EmptyApiKey));
}

#[test]
fn api_key_must_fit_a_header() {
    for key in ["line\nbreak", "carriage\rreturn", "nul\0", "delete\x7f", "\x1b[0m"] {
        assert_eq!(Client::new(key, None).err(), Some(Error::InvalidHeaderValue), "{:?}", key);
    }
    for key in ["apikey", "with space", "tab\tinside", "~!@#$%^&*()", "schlüssel"] {
        assert_eq!(Client::new(key, None).unwrap().api_key(), key);
    }
    assert_eq!(check_api_key("k", false), Err(Error::InvalidHeaderValue));
    assert_eq!(check_api_key("k", true), Ok(()));
    // the key is looked at before the proxy
    assert_eq!(Client::new("a\nb", Some("127.0.0.1:99999")).err(), Some(Error::InvalidHeaderValue));
}

#[test]
fn proxy_address_must_make_a_url() {
    assert_eq!(
        Client::new("apikey", Some("127.0.0.1:99999")).err(),
        Some(Error::Url(ParseError::InvalidPort))
    );
    assert_eq!(
        Client::new("apikey", Some("[::1:9050")).err(),
        Some(Error::Url(ParseError::InvalidIpv6Address))
    );
    assert_eq!(
        check_proxy(String::from("u"), Err(ParseError::EmptyHost)),
        Err(Error::Url(ParseError::EmptyHost))
    );
    assert_eq!(check_proxy(String::from("u"), Ok(())), Ok(String::from("u")));
    assert_eq!(Error::Url(ParseError::EmptyHost).message(), "Invalid proxy address");
    assert_eq!(Error::EmptyApiKey.message(), "Empty API Key");
    assert_eq!(Error::InvalidHeaderValue.message(), "Invalid header value");
}

#[test]
fn json_documents() {
    assert_eq!(Json::parse("null"), Ok(Json::Null));
    assert_eq!(Json::parse(" true "), Ok(Json::Bool(true)));
    assert_eq!(Json::parse("17"), Ok(Json::Number(String::from("17"))));
    assert_eq!(Json::parse("-17"), Ok(Json::Number(String::from("-17"))));
    assert_eq!(Json::parse("\"a\\nb\""), Ok(Json::Text(String::from("a\nb"))));
    assert_eq!(
        Json::parse("[1, [], {}]"),
        Ok(Json::Array(vec![
            Json::Number(String::from("1")),
            Json::Array(vec![]),
            Json::Object(vec![])
        ]))
    );
    assert_eq!(
        Json::parse(r#"{"a": {"b": false}}"#),
        Ok(Json::Object(vec![(
            String::from("a"),
            Json::Object(vec![(String::from("b"), Json::Bool(false))])
        )]))
    );
    assert!(Json::parse("").is_err());
    assert!(Json::parse("{\"a\":}").is_err());
    assert!(Json::parse("1 2").is_err());
}

#[test]
fn json_accessors() {
    let json = Json::parse(r#"{"n": 12, "f": 1.5, "t": "0.25", "big": 4294967296, "neg": -1}"#)
        .unwrap();
    assert_eq!(json.get("n").unwrap().as_u64(), Some(12));
    assert_eq!(json.get("n").unwrap().as_u32(), Some(12));
    assert_eq!(json.get("big").unwrap().as_u64(), Some(4294967296));
    assert_eq!(json.get("big").unwrap().as_u32(), None);
    assert_eq!(json.get("neg").unwrap().as_u64(), None);
    assert_eq!(json.get("f").unwrap().as_u64(), None);
    assert_eq!(json.get("t").unwrap().as_u64(), None);
    assert_eq!(json.get("f").unwrap().as_number().unwrap().digits(), &[1, 5]);
    assert_eq!(json.get("neg").unwrap().as_number().unwrap().is_negative(), true);
    assert!(json.get("t").unwrap().as_number().is_none());
    assert_eq!(json.get("t").unwrap().as_amount().unwrap().digits(), &[2, 5]);
    assert_eq!(json.get("t").unwrap().as_amount().unwrap().exponent(), -2);
    assert!(json.get("f").unwrap().as_amount().is_none());
    assert_eq!(json.get("t").unwrap().as_text(), Some(&String::from("0.25")));
    assert_eq!(json.get("n").unwrap().as_text(), None);
    assert!(json.get("missing").is_none());
    assert!(Json::Null.get("n").is_none());
    // of two members with one key the first is found
    let twice = Json::Object(vec![
        (String::from("k"), Json::Bool(true)),
        (String::from("k"), Json::Bool(false)),
    ]);
    assert_eq!(twice.get("k"), Some(&Json::Bool(true)));
}

#[test]
fn tables() {
    let mut table: Table<u32> = Table::new();
    assert_eq!(table.len(), 0);
    assert_eq!(table.get("a"), None);
    table.insert(String::from("a"), 1);
    table.insert(String::from("b"), 2);
    assert_eq!(table.len(), 2);
    assert_eq!(table.get("a"), Some(&1));
    assert_eq!(table.get("b"), Some(&2));
    assert_eq!(table.get("c"), None);
    table.insert(String::from("a"), 3);
    assert_eq!(table.len(), 2);
    assert_eq!(table.get("a"), Some(&3));
    assert!(table.contains_key("b"));
    assert!(!table.contains_key("c"));
    assert_eq!(table.entry(0), Some((&String::from("a"), &3)));
    assert_eq!(table.entry(1), Some((&String::from("b"), &2)));
    assert_eq!(table.entry(2), None);
    let copy = table.clone();
    assert_eq!(copy.len(), 2);
    assert_eq!(copy.get("a"), Some(&3));
}
