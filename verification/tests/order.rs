use std::cmp::Ordering;

use braiinspool::client::deserialize;
use braiinspool::decimal::Decimal;
use braiinspool::hashrate::HashRate;
use braiinspool::model::{BtcResponse, Worker};

fn number(text: &str) -> Decimal {
    Decimal::parse(text).unwrap()
}

fn worker_rate(value: &str, unit: &str) -> HashRate {
    let body = format!(
        r#"{{"btc":{{"state":"ok","last_share":1,"hash_rate_unit":"{}","hash_rate_scoring":{},
        "hash_rate_5m":1,"hash_rate_60m":1,"hash_rate_24h":1,"shares_5m":1,"shares_60m":1,
        "shares_24h":1}}}}"#,
        unit, value
    );
    deserialize::<BtcResponse<Worker>>(&body).unwrap().btc.hash_rate_scoring
}

#[test]
fn decimals_are_ordered_as_numbers() {
    let ascending = [
        "-1e999999999999999999",
        "-1000",
        "-999.999",
        "-2",
        "-1.5",
        "-1",
        "-0.5",
        "-0.001",
        "-1e-999999999999999999",
        "0",
        "1e-999999999999999999",
        "0.0001",
        "0.001",
        "0.0011",
        "0.01",
        "0.5",
        "0.51",
        "1",
        "1.0000000000000000000000000000000000000001",
        "1.5",
        "2",
        "9.99",
        "10",
        "10.01",
        "99",
        "100",
        "5727000000.746604",
        "9e999999999999999998",
        "1e999999999999999999",
    ];
    for (i, a) in ascending.iter().enumerate() {
        for (j, b) in ascending.iter().enumerate() {
            let expected = i.cmp(&j);
            assert_eq!(number(a).compare(&number(b)), expected, "{} against {}", a, b);
            let sign = match expected {
                Ordering::Less => -1,
                Ordering::Equal => 0,
                Ordering::Greater => 1,
            };
            assert_eq!(number(a).compared_to(&number(b)), sign, "{} against {}", a, b);
        }
    }
}

#[test]
fn equal_numbers_compare_equal() {
    assert_eq!(number("100").compare(&number("1e2")), Ordering::Equal);
    assert_eq!(number("0").compare(&number("-0.0")), Ordering::Equal);
    assert_eq!(number("1.50").compare(&number("15e-1")), Ordering::Equal);
    assert_eq!(number("-2.5").compare(&number("-0.25e1")), Ordering::Equal);
}

#[test]
fn hash_rates_are_ordered_by_unit_then_number() {
    assert_eq!(worker_rate("1.5", "Gh/s").compare(&worker_rate("2", "Gh/s")), Ordering::Less);
    assert_eq!(worker_rate("2", "Gh/s").compare(&worker_rate("1.5", "Gh/s")), Ordering::Greater);
    assert_eq!(worker_rate("2", "Gh/s").compare(&worker_rate("2.0", "GH/s")), Ordering::Equal);
    // the unit comes first, whatever the numbers
    assert_eq!(worker_rate("1000", "Gh/s").compare(&worker_rate("1", "Th/s")), Ordering::Less);
    assert_eq!(worker_rate("5000", "Gh/s").compare(&worker_rate("1", "Th/s")), Ordering::Less);
    assert_eq!(worker_rate("1", "Yh/s").compare(&worker_rate("9", "Zh/s")), Ordering::Greater);
    assert_eq!(worker_rate("0", "Kh/s").compare(&worker_rate("7", "H/s")), Ordering::Greater);
    // the hashes per second are compared as numbers
    assert_eq!(
        worker_rate("5000", "Gh/s").to_hashes().compare(&worker_rate("1", "Th/s").to_hashes()),
        Ordering::Greater
    );
    assert_eq!(
        worker_rate("1000", "Gh/s").to_hashes().compare(&worker_rate("1", "Th/s").to_hashes()),
        Ordering::Equal
    );
}
