use braiinspool::client::{deserialize, request, Client};
use braiinspool::decimal::Decimal;
use braiinspool::error::Error;
use braiinspool::json::Json;
use braiinspool::model::{
    Block, BtcResponse, DailyReward, DailyRewards, FromJson, PoolStats, UserProfile, Worker,
    Workers,
};
use braiinspool::unit::HashRateUnit;

const POOL_STATS: &str = r#"{"btc":{"hash_rate_unit":"Gh/s","pool_5m_hash_rate":5727000000.746604,"pool_60m_hash_rate":5617000000.99422,"pool_24h_hash_rate":5517000000.88519,"update_ts":1699938300,"blocks":{"549753":{"date_found":1542002919,"mining_duration":3423,"total_shares":4640771710739,"state":"confirmed","confirmations_left":0,"value":"12.92594863","user_reward":"0.00006194","pool_scoring_hash_rate":5878745444.967269}},"fpps_rate":0.00000241}}"#;

const BLOCK: &str = r#"{"date_found":1542002919,"mining_duration":3423,"total_shares":4640771710739,"state":"confirmed","confirmations_left":0,"value":"12.92594863","user_reward":"0.00006194","pool_scoring_hash_rate":5878745444.967269}"#;

fn nearest_float(d: &Decimal) -> f64 {
    let mut text = String::new();
    if d.is_negative() {
        text.push('-');
    }
    text.push('0');
    for digit in d.digits() {
        text.push(char::from(b'0' + *digit));
    }
    text.push_str(&format!("e{}", d.exponent()));
    text.parse::<f64>().unwrap()
}

fn is_decode_failure<T>(r: Result<T, Error>) -> bool {
    matches!(r, Err(Error::FailedToDeserialize(_)))
}

#[test]
fn pool_stats_wire_body_decodes() {
    let client = Client::new("apikey", None).unwrap();
    let stats = client.pool_stats(200, POOL_STATS).unwrap();
    assert_eq!(stats.pool_5m_hash_rate.unit(), HashRateUnit::GH);
    assert_eq!(nearest_float(stats.pool_5m_hash_rate.value()), 5727000000.746604);
    assert_eq!(stats.blocks.len(), 1);
    let (key, block) = stats.blocks.entry(0).unwrap();
    assert_eq!(key.as_str(), "549753");
    assert_eq!(nearest_float(&block.value), 12.92594863);
    assert_eq!(block.value, Decimal::parse("12.92594863").unwrap());
    assert!(stats.blocks.entry(1).is_none());
    assert!(stats.blocks.contains_key("549753"));
    assert!(!stats.blocks.contains_key("549754"));
}

#[test]
fn block_decodes_to_exact_values() {
    let json = Json::parse(BLOCK).unwrap();
    let block = Block::from_json(&json).unwrap();
    let expected = Block {
        date_found: 1542002919,
        mining_duration: 3423,
        total_shares: 4640771710739,
        state: String::from("confirmed"),
        confirmations_left: 0,
        value: Decimal::parse("12.92594863").unwrap(),
        user_reward: Decimal::parse("0.00006194").unwrap(),
        pool_scoring_hash_rate: Decimal::parse("5878745444.967269").unwrap(),
    };
    assert_eq!(block, expected);
    assert_eq!(block.value.digits(), &[1, 2, 9, 2, 5, 9, 4, 8, 6, 3]);
    assert_eq!(block.value.exponent(), -8);
    assert_eq!(block.user_reward.digits(), &[6, 1, 9, 4]);
    assert_eq!(block.user_reward.exponent(), -8);
}

#[test]
fn every_missing_member_of_a_block_fails() {
    let members = [
        "date_found",
        "mining_duration",
        "total_shares",
        "state",
        "confirmations_left",
        "value",
        "user_reward",
        "pool_scoring_hash_rate",
    ];
    for missing in members {
        let renamed = BLOCK.replace(&format!("\"{}\"", missing), "\"other\"");
        assert_ne!(renamed, BLOCK);
        assert!(is_decode_failure(deserialize::<Block>(&renamed)), "{}", missing);
    }
    assert!(deserialize::<Block>(BLOCK).is_ok());
}

#[test]
fn member_of_the_wrong_json_type_fails() {
    // a number where a string is due
    let wrong = BLOCK.replace("\"confirmed\"", "7");
    assert!(is_decode_failure(deserialize::<Block>(&wrong)));
    // a string where a number is due
    let wrong = BLOCK.replace("3423", "\"3423\"");
    assert!(is_decode_failure(deserialize::<Block>(&wrong)));
    // a decimal amount written as a number
    let wrong = BLOCK.replace("\"12.92594863\"", "12.92594863");
    assert!(is_decode_failure(deserialize::<Block>(&wrong)));
    // a fraction where a whole number is due
    let wrong = BLOCK.replace("3423", "3423.5");
    assert!(is_decode_failure(deserialize::<Block>(&wrong)));
    // a negative number where a count is due
    let wrong = BLOCK.replace("3423", "-3423");
    assert!(is_decode_failure(deserialize::<Block>(&wrong)));
    // a number too large for 32 bits
    let wrong = BLOCK.replace("3423", "4294967296");
    assert!(is_decode_failure(deserialize::<Block>(&wrong)));
    let fits = BLOCK.replace("3423", "4294967295");
    assert_eq!(deserialize::<Block>(&fits).unwrap().mining_duration, 4294967295);
    // null where a value is due
    let wrong = BLOCK.replace("\"confirmed\"", "null");
    assert!(is_decode_failure(deserialize::<Block>(&wrong)));
    // an array where an object is due
    assert!(is_decode_failure(deserialize::<Block>("[]")));
    assert!(is_decode_failure(deserialize::<BtcResponse<PoolStats>>(r#"{"btc":[]}"#)));
}

#[test]
fn decimal_member_that_is_no_number_fails() {
    let wrong = BLOCK.replace("\"12.92594863\"", "\"abc\"");
    assert!(is_decode_failure(deserialize::<Block>(&wrong)));
    let wrong = BLOCK.replace("\"12.92594863\"", "\"\"");
    assert!(is_decode_failure(deserialize::<Block>(&wrong)));
    let wrong = BLOCK.replace("\"12.92594863\"", "\"12.9 \"");
    assert!(is_decode_failure(deserialize::<Block>(&wrong)));
    let wrong = POOL_STATS.replace("\"0.00006194\"", "\"abc\"");
    let client = Client::new("apikey", None).unwrap();
    assert!(is_decode_failure(client.pool_stats(200, &wrong)));
}

#[test]
fn text_that_is_no_json_fails() {
    assert!(is_decode_failure(deserialize::<Block>("{")));
    assert!(is_decode_failure(deserialize::<Block>("not json")));
    assert!(is_decode_failure(request::<BtcResponse<Workers>>(200, "<html></html>")));
}

#[test]
fn envelope_is_required() {
    let bare = r#"{"daily_rewards":[]}"#;
    assert!(deserialize::<DailyRewards>(bare).is_ok());
    assert!(is_decode_failure(deserialize::<BtcResponse<DailyRewards>>(bare)));
    let other_currency = r#"{"ltc":{"daily_rewards":[]}}"#;
    assert!(is_decode_failure(deserialize::<BtcResponse<DailyRewards>>(other_currency)));
    let wrapped = r#"{"btc":{"daily_rewards":[]}}"#;
    let rewards = deserialize::<BtcResponse<DailyRewards>>(wrapped).unwrap().btc;
    assert_eq!(rewards.daily_rewards, Vec::<DailyReward>::new());
}

#[test]
fn one_undecodable_entry_fails_the_whole() {
    let client = Client::new("apikey", None).unwrap();
    let body = r#"{"btc":{"workers":{"a.b":{"state":"ok"}}}}"#;
    assert!(is_decode_failure(client.workers(200, body)));
    let body = r#"{"btc":{"daily_rewards":[{"date":1}]}}"#;
    assert!(is_decode_failure(client.daily_rewards(200, body)));
    let body = r#"{"btc":{"workers":{}}}"#;
    assert_eq!(client.workers(200, body).unwrap().workers.len(), 0);
}

#[test]
fn unit_qualifies_every_rate_of_a_record() {
    let body = r#"{"btc":{"workers":{"me.rig":{"state":"low","last_share":5,
        "hash_rate_unit":"TH/s","hash_rate_scoring":1.5,"hash_rate_5m":2,
        "hash_rate_60m":0,"hash_rate_24h":2.25e1,
        "shares_5m":1,"shares_60m":2,"shares_24h":18446744073709551615}}}}"#;
    let client = Client::new("apikey", None).unwrap();
    let workers = client.workers(200, body).unwrap();
    let worker: &Worker = workers.workers.get("me.rig").unwrap();
    assert_eq!(worker.hash_rate_scoring.unit(), HashRateUnit::TH);
    assert_eq!(worker.hash_rate_5m.unit(), HashRateUnit::TH);
    assert_eq!(worker.hash_rate_60m.unit(), HashRateUnit::TH);
    assert_eq!(worker.hash_rate_24h.unit(), HashRateUnit::TH);
    assert_eq!(*worker.hash_rate_scoring.value(), Decimal::parse("1.5").unwrap());
    assert_eq!(*worker.hash_rate_24h.value(), Decimal::parse("22.5").unwrap());
    assert_eq!(*worker.hash_rate_60m.value(), Decimal::parse("0").unwrap());
    assert_eq!(worker.shares_24h, u64::MAX);
    assert_eq!(worker.state, "low");
}

#[test]
fn unknown_unit_fails() {
    let body = r#"{"btc":{"all_time_reward":"1","hash_rate_unit":"Bh/s","hash_rate_5m":1,
        "hash_rate_60m":1,"hash_rate_24h":1,"hash_rate_yesterday":1,"low_workers":0,
        "off_workers":0,"ok_workers":0,"dis_workers":0,"current_balance":"0",
        "today_reward":"0","estimated_reward":"0","shares_5m":0,"shares_60m":0,
        "shares_24h":0,"shares_yesterday":0}}"#;
    assert!(is_decode_failure(deserialize::<BtcResponse<UserProfile>>(body)));
    let body = body.replace("Bh/s", "mh/s");
    let profile = deserialize::<BtcResponse<UserProfile>>(&body).unwrap().btc;
    assert_eq!(profile.hash_rate_yesterday.unit(), HashRateUnit::MH);
}
