use braiinspool::client::deserialize;
use braiinspool::decimal::Decimal;
use braiinspool::hashrate::HashRate;
use braiinspool::model::{Block, BtcResponse, DailyRewards, PoolStats, UserProfile, Worker, Workers};
use braiinspool::unit::HashRateUnit;

/// The floating-point number nearest to a decimal.
fn float(d: &Decimal) -> f64 {
    let mut text = String::new();
    if d.is_negative() {
        text.push('-');
    }
    text.push('0');
    for digit in d.digits() {
        text.push(char::from(b'0' + *digit));
    }
    text.push_str(&format!("e{}", d.exponent()));
    text.parse::<f64>().unwrap()
}

fn assert_rate(rate: &HashRate, unit: HashRateUnit, value: f64) {
    assert_eq!(rate.unit(), unit);
    assert_eq!(float(rate.value()), value);
}

#[test]
fn test_pool_stats_deserialization() {
    let json = r#"{
    "btc": {
        "hash_rate_unit": "Gh/s",
        "pool_active_workers": 1,
        "pool_5m_hash_rate": 5727000000.746604,
        "pool_60m_hash_rate": 5617000000.99422,
        "pool_24h_hash_rate": 5517000000.88519,
        "update_ts": 1699938300,
        "blocks": {
            "549753": {
                "date_found": 1542002919,
                "mining_duration": 3423,
                "total_shares": 4640771710739,
                "state": "confirmed",
                "confirmations_left": 0,
                "value": "12.92594863",
                "user_reward": "0.00006194",
                "pool_scoring_hash_rate": 5878745444.967269
            }
        },
        "fpps_rate": 0.00000241
    }
}"#;
    let user_profile: BtcResponse<PoolStats> = deserialize(json).unwrap();
    let stats: PoolStats = user_profile.btc;
    assert_rate(&stats.pool_5m_hash_rate, HashRateUnit::GH, 5727000000.746604);
    assert_rate(&stats.pool_60m_hash_rate, HashRateUnit::GH, 5617000000.99422);
    assert_rate(&stats.pool_24h_hash_rate, HashRateUnit::GH, 5517000000.88519);
    assert_eq!(stats.update_ts, 1699938300);
    assert_eq!(stats.blocks.len(), 1);
    let block: &Block = stats.blocks.get("549753").unwrap();
    assert_eq!(block.date_found, 1542002919);
    assert_eq!(block.mining_duration, 3423);
    assert_eq!(block.total_shares, 4640771710739);
    assert_eq!(block.state, String::from("confirmed"));
    assert_eq!(block.confirmations_left, 0);
    assert_eq!(float(&block.value), 12.92594863);
    assert_eq!(float(&block.user_reward), 0.00006194);
    assert_eq!(float(&block.pool_scoring_hash_rate), 5878745444.967269);
    assert_eq!(float(&stats.fpps_rate), 0.00000241);
}

#[test]
fn test_user_profile_deserialization() {
    let json = r#"{
    "username": "username",
    "btc": {
        "all_time_reward": "0.15000000",
        "hash_rate_unit": "Gh/s",
        "hash_rate_5m": 27978,
        "hash_rate_60m": 28191,
        "hash_rate_24h": 28357,
        "hash_rate_yesterday": 28197,
        "low_workers": 0,
        "off_workers": 0,
        "ok_workers": 2,
        "dis_workers": 2,
        "current_balance": "0.15000000",
        "today_reward": "0.000166667",
        "estimated_reward": "0.00011940",
        "shares_5m": 123,
        "shares_60m": 1476,
        "shares_24h": 35424,
        "shares_yesterday": 0
    }
}"#;
    let user_profile: BtcResponse<UserProfile> = deserialize(json).unwrap();
    let profile: UserProfile = user_profile.btc;
    assert_eq!(float(&profile.all_time_reward), 0.15);
    assert_rate(&profile.hash_rate_5m, HashRateUnit::GH, 27978.0);
    assert_rate(&profile.hash_rate_60m, HashRateUnit::GH, 28191.0);
    assert_rate(&profile.hash_rate_24h, HashRateUnit::GH, 28357.0);
    assert_rate(&profile.hash_rate_yesterday, HashRateUnit::GH, 28197.0);
    assert_eq!(profile.low_workers, 0);
    assert_eq!(profile.off_workers, 0);
    assert_eq!(profile.ok_workers, 2);
    assert_eq!(profile.dis_workers, 2);
    assert_eq!(float(&profile.current_balance), 0.15);
    assert_eq!(float(&profile.today_reward), 0.000166667);
    assert_eq!(float(&profile.estimated_reward), 0.00011940);
    assert_eq!(profile.shares_5m, 123);
    assert_eq!(profile.shares_60m, 1476);
    assert_eq!(profile.shares_24h, 35424);
    assert_eq!(profile.shares_yesterday, 0);
}

fn assert_worker(
    worker: &Worker,
    last_share: u64,
    scoring: f64,
    rate_5m: f64,
    rate_60m: f64,
    rate_24h: f64,
) {
    assert_eq!(worker.state, String::from("ok"));
    assert_eq!(worker.last_share, last_share);
    assert_rate(&worker.hash_rate_scoring, HashRateUnit::GH, scoring);
    assert_rate(&worker.hash_rate_5m, HashRateUnit::GH, rate_5m);
    assert_rate(&worker.hash_rate_60m, HashRateUnit::GH, rate_60m);
    assert_rate(&worker.hash_rate_24h, HashRateUnit::GH, rate_24h);
    assert_eq!(worker.shares_5m, 90304);
    assert_eq!(worker.shares_60m, 1125762);
    assert_eq!(worker.shares_24h, 20945364);
}

#[test]
fn test_workers_deserialization() {
    let json = r#"{
    "btc": {
        "workers": {
            "username.worker1": {
                "state": "ok",
                "last_share": 1542103204,
                "hash_rate_unit": "Gh/s",
                "hash_rate_scoring": 15342,
                "hash_rate_5m": 14977,
                "hash_rate_60m": 15302,
                "hash_rate_24h": 15351,
                "shares_5m": 90304,
                "shares_60m": 1125762,
                "shares_24h": 20945364

            },
            "username.worker2": {
                "state": "ok",
                "last_share": 1542103200,
                "hash_rate_unit": "Gh/s",
                "hash_rate_scoring": 12952,
                "hash_rate_5m": 13001,
                "hash_rate_60m": 12889,
                "hash_rate_24h": 13006,
                "shares_5m": 90304,
                "shares_60m": 1125762,
                "shares_24h": 20945364
            }
        }
    }
}"#;
    let user_profile: BtcResponse<Workers> = deserialize(json).unwrap();
    let workers: Workers = user_profile.btc;
    assert_eq!(workers.workers.len(), 2);
    assert_worker(
        workers.workers.get("username.worker1").unwrap(),
        1542103204,
        15342.0,
        14977.0,
        15302.0,
        15351.0,
    );
    assert_worker(
        workers.workers.get("username.worker2").unwrap(),
        1542103200,
        12952.0,
        13001.0,
        12889.0,
        13006.0,
    );
}

#[test]
fn daily_rewards_keep_the_order_of_the_wire() {
    let json = r#"{"btc":{"daily_rewards":[
        {"date":1577836800,"total_reward":"0.12345678","mining_reward":"0.01234567",
         "bos_plus_reward":"0.00123456","referral_bonus":"0.00012345",
         "referral_reward":"0.00001234","calculation_date":1577923200},
        {"date":1577750400,"total_reward":"1","mining_reward":"0.5",
         "bos_plus_reward":"0.25","referral_bonus":"0.125",
         "referral_reward":"0.125","calculation_date":1577836800}
    ]}}"#;
    let answer: BtcResponse<DailyRewards> = deserialize(json).unwrap();
    let rewards = answer.btc.daily_rewards;
    assert_eq!(rewards.len(), 2);
    assert_eq!(rewards[0].date, 1577836800);
    assert_eq!(float(&rewards[0].total_reward), 0.12345678);
    assert_eq!(float(&rewards[0].mining_reward), 0.01234567);
    assert_eq!(float(&rewards[0].bos_plus_reward), 0.00123456);
    assert_eq!(float(&rewards[0].referral_bonus), 0.00012345);
    assert_eq!(float(&rewards[0].referral_reward), 0.00001234);
    assert_eq!(rewards[0].calculation_date, 1577923200);
    assert_eq!(rewards[1].date, 1577750400);
    assert_eq!(rewards[1].total_reward, Decimal::parse("1").unwrap());
    assert_eq!(rewards[1].mining_reward, Decimal::parse("0.5").unwrap());
    assert_eq!(float(&rewards[1].referral_reward), 0.125);
}
