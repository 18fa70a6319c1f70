//! Models
//!
//! Every record is built once, from a JSON document, and never changed
//! afterwards. A record that holds hash rates reads their unit from the
//! one member that names it, so that all its rates share that unit.

use vstd::prelude::*;

use crate::decimal::Decimal;
use crate::field::{
    amount_member, fits, get_amount, get_number, get_rate, get_text, get_u32, get_u64, get_unit,
    member_fits, number_member, rate_member, text_member, u32_member, u64_member, unit_member,
    Shape, UNIT_KEY,
};
use crate::hashrate::HashRate;
use crate::json::{first_member, Json};
use crate::table::Table;

verus! {

/// A type whose values are written as JSON documents.
pub trait FromJson: Sized {
    /// Whether `json` writes a value of this type: every member that the
    /// type needs is there and has the right JSON type, and every decimal
    /// literal is one. Members that the type does not name are passed over.
    spec fn decodable(json: Json) -> bool;

    /// Whether `self` is the value that `json` writes.
    spec fn decodes(self, json: Json) -> bool;

    /// The shape that a document must have to write a value of this type.
    spec fn shape() -> Shape;

    /// A document without that shape writes no value.
    proof fn lemma_shape(json: Json)
        requires
            !fits(json, Self::shape()),
        ensures
            !Self::decodable(json),
    ;

    /// Builds the value that a document writes; `None` where it writes
    /// none.
    fn from_json(json: &Json) -> (r: Option<Self>)
        ensures
            r is Some <==> Self::decodable(*json),
            r matches Some(v) ==> v.decodes(*json),
    ;
}

/// A type whose values are written as JSON objects with certain members.
pub trait Record: FromJson {
    /// The members that a document must have, each with the shape that
    /// it must have.
    spec fn required() -> Map<Seq<char>, Shape>;

    /// A document in which a required member is missing, or is there
    /// without its shape, writes no value.
    proof fn lemma_required(json: Json, key: Seq<char>)
        requires
            Self::required().contains_key(key),
            !member_fits(json, key, Self::required()[key]),
        ensures
            !Self::decodable(json),
    ;
}

/// The envelope around every answer: the payload stands under the key of
/// the one currency that the pool serves.
pub struct BtcResponse<T> {
    /// The payload
    pub btc: T,
}

impl<T: FromJson> FromJson for BtcResponse<T> {
    open spec fn decodable(json: Json) -> bool {
        json.member("btc"@) matches Some(m) && T::decodable(m)
    }

    open spec fn decodes(self, json: Json) -> bool {
        json.member("btc"@) matches Some(m) && self.btc.decodes(m)
    }

    open spec fn shape() -> Shape {
        Shape::Object
    }

    proof fn lemma_shape(json: Json) {
    }

    fn from_json(json: &Json) -> (r: Option<BtcResponse<T>>) {
        let btc = T::from_json(json.get("btc")?)?;
        Some(BtcResponse { btc })
    }
}

impl<T: FromJson> Record for BtcResponse<T> {
    open spec fn required() -> Map<Seq<char>, Shape> {
        map!["btc"@ => T::shape()]
    }

    proof fn lemma_required(json: Json, key: Seq<char>) {
        match json.member("btc"@) {
            Some(m) => {
                T::lemma_shape(m);
            },
            None => {},
        }
    }
}

/// A JSON array writes a list: each item in its place.
impl<T: FromJson> FromJson for Vec<T> {
    open spec fn decodable(json: Json) -> bool {
        json matches Json::Array(items) && forall|i: int|
            0 <= i < items@.len() ==> T::decodable(#[trigger] items@[i])
    }

    open spec fn decodes(self, json: Json) -> bool {
        json matches Json::Array(items) && self@.len() == items@.len() && forall|i: int|
            0 <= i < items@.len() ==> (#[trigger] self@[i]).decodes(items@[i])
    }

    open spec fn shape() -> Shape {
        Shape::Array
    }

    proof fn lemma_shape(json: Json) {
    }

    fn from_json(json: &Json) -> (r: Option<Vec<T>>) {
        match json {
            Json::Array(items) => decode_items(items),
            _ => None,
        }
    }
}

/// Decodes the items of an array, in order.
fn decode_items<T: FromJson>(items: &Vec<Json>) -> (r: Option<Vec<T>>)
    ensures
        r is Some <==> forall|i: int| 0 <= i < items@.len() ==> T::decodable(#[trigger] items@[i]),
        r matches Some(list) ==> list@.len() == items@.len() && forall|i: int|
            0 <= i < items@.len() ==> (#[trigger] list@[i]).decodes(items@[i]),
{
    let n = items.len();
    let mut list: Vec<T> = Vec::new();
    let mut i: usize = 0;
    while i < n
        invariant
            i <= n,
            n == items@.len(),
            list@.len() == i,
            forall|k: int| 0 <= k < i ==> T::decodable(#[trigger] items@[k]),
            forall|k: int| 0 <= k < i ==> (#[trigger] list@[k]).decodes(items@[k]),
        decreases n - i,
    {
        match T::from_json(&items[i]) {
            Some(item) => {
                list.push(item);
            },
            None => {
                assert(!T::decodable(items@[i as int]));
                return None;
            },
        }
        i = i + 1;
    }
    Some(list)
}

/// A JSON object writes a table: each member under its key. Should a key
/// stand more than once, its first member counts.
impl<T: FromJson> FromJson for Table<T> {
    open spec fn decodable(json: Json) -> bool {
        json matches Json::Object(members) && forall|i: int|
            0 <= i < members@.len() ==> T::decodable((#[trigger] members@[i]).1)
    }

    open spec fn decodes(self, json: Json) -> bool {
        json matches Json::Object(members) && table_decodes(self@, members@)
    }

    open spec fn shape() -> Shape {
        Shape::Object
    }

    proof fn lemma_shape(json: Json) {
    }

    fn from_json(json: &Json) -> (r: Option<Table<T>>) {
        match json {
            Json::Object(members) => decode_members(members),
            _ => None,
        }
    }
}

/// Whether `table` holds, under each key of `members` and under no other,
/// the value that the first member with that key writes.
pub open spec fn table_decodes<T: FromJson>(
    table: Map<Seq<char>, T>,
    members: Seq<(String, Json)>,
) -> bool {
    &&& forall|k: Seq<char>| #[trigger]
        table.contains_key(k) <==> first_member(members, k, 0) is Some
    &&& forall|k: Seq<char>| #[trigger]
        table.contains_key(k) ==> table[k].decodes(first_member(members, k, 0)->0)
}

/// Taking one more member into account changes the first member with a
/// key only where there was none and the new member has the key.
proof fn lemma_first_member_extend(
    members: Seq<(String, Json)>,
    key: Seq<char>,
    from: int,
    i: int,
)
    requires
        0 <= from <= i < members.len(),
    ensures
        first_member(members.take(i + 1), key, from) == (match first_member(
            members.take(i),
            key,
            from,
        ) {
            Some(v) => Some(v),
            None => if members[i].0@ == key {
                Some(members[i].1)
            } else {
                None
            },
        }),
    decreases i - from,
{
    let shorter = members.take(i);
    let longer = members.take(i + 1);
    if from < i {
        assert(longer[from] == members[from]);
        assert(shorter[from] == members[from]);
        if members[from].0@ != key {
            lemma_first_member_extend(members, key, from + 1, i);
        }
    } else {
        assert(longer[i] == members[i]);
        assert(first_member(shorter, key, i) is None);
        assert(first_member(longer, key, i + 1) is None);
    }
}

/// Decodes the members of an object into a table.
fn decode_members<T: FromJson>(members: &Vec<(String, Json)>) -> (r: Option<Table<T>>)
    ensures
        r is Some <==> forall|i: int|
            0 <= i < members@.len() ==> T::decodable((#[trigger] members@[i]).1),
        r matches Some(table) ==> table_decodes(table@, members@),
{
    let n = members.len();
    let mut table: Table<T> = Table::new();
    let mut i: usize = 0;
    while i < n
        invariant
            i <= n,
            n == members@.len(),
            forall|k: int| 0 <= k < i ==> T::decodable((#[trigger] members@[k]).1),
            table_decodes(table@, members@.take(i as int)),
        decreases n - i,
    {
        match T::from_json(&members[i].1) {
            Some(value) => {
                if !table.contains_key(members[i].0.as_str()) {
                    table.insert(members[i].0.clone(), value);
                }
                proof {
                    assert forall|k: Seq<char>| #[trigger]
                        table@.contains_key(k) <==> first_member(
                            members@.take(i + 1),
                            k,
                            0,
                        ) is Some by {
                        lemma_first_member_extend(members@, k, 0, i as int);
                    }
                    assert forall|k: Seq<char>| #[trigger]
                        table@.contains_key(k) implies table@[k].decodes(
                        first_member(members@.take(i + 1), k, 0)->0,
                    ) by {
                        lemma_first_member_extend(members@, k, 0, i as int);
                    }
                }
            },
            None => {
                assert(!T::decodable(members@[i as int].1));
                return None;
            },
        }
        i = i + 1;
    }
    proof {
        assert(members@.take(n as int) =~= members@);
    }
    Some(table)
}

/// Block
#[derive(Debug, Clone, PartialEq)]
pub struct Block {
    /// Unix time when given block was found
    pub date_found: u64,
    /// Duration of the round leading to given block
    pub mining_duration: u32,
    /// Number of shares collected during the round
    pub total_shares: u64,
    /// State of given block
    pub state: String,
    /// Number of confirmations left
    pub confirmations_left: u32,
    /// Block value
    pub value: Decimal,
    /// User reward for the given block
    pub user_reward: Decimal,
    /// Pool scoring hash rate at the time when block was found
    pub pool_scoring_hash_rate: Decimal,
}

impl FromJson for Block {
    open spec fn decodable(json: Json) -> bool {
        &&& u64_member(json, "date_found"@) is Some
        &&& u32_member(json, "mining_duration"@) is Some
        &&& u64_member(json, "total_shares"@) is Some
        &&& text_member(json, "state"@) is Some
        &&& u32_member(json, "confirmations_left"@) is Some
        &&& amount_member(json, "value"@) is Some
        &&& amount_member(json, "user_reward"@) is Some
        &&& number_member(json, "pool_scoring_hash_rate"@) is Some
    }

    open spec fn decodes(self, json: Json) -> bool {
        &&& u64_member(json, "date_found"@) == Some(self.date_found)
        &&& u32_member(json, "mining_duration"@) == Some(self.mining_duration)
        &&& u64_member(json, "total_shares"@) == Some(self.total_shares)
        &&& text_member(json, "state"@) == Some(self.state@)
        &&& u32_member(json, "confirmations_left"@) == Some(self.confirmations_left)
        &&& amount_member(json, "value"@) == Some(self.value@)
        &&& amount_member(json, "user_reward"@) == Some(self.user_reward@)
        &&& number_member(json, "pool_scoring_hash_rate"@) == Some(self.pool_scoring_hash_rate@)
    }

    open spec fn shape() -> Shape {
        Shape::Object
    }

    proof fn lemma_shape(json: Json) {
    }

    fn from_json(json: &Json) -> (r: Option<Block>) {
        let date_found = get_u64(json, "date_found")?;
        let mining_duration = get_u32(json, "mining_duration")?;
        let total_shares = get_u64(json, "total_shares")?;
        let state = get_text(json, "state")?;
        let confirmations_left = get_u32(json, "confirmations_left")?;
        let value = get_amount(json, "value")?;
        let user_reward = get_amount(json, "user_reward")?;
        let pool_scoring_hash_rate = get_number(json, "pool_scoring_hash_rate")?;
        Some(
            Block {
                date_found,
                mining_duration,
                total_shares,
                state,
                confirmations_left,
                value,
                user_reward,
                pool_scoring_hash_rate,
            },
        )
    }
}

impl Record for Block {
    open spec fn required() -> Map<Seq<char>, Shape> {
        map![
            "date_found"@ => Shape::U64,
            "mining_duration"@ => Shape::U32,
            "total_shares"@ => Shape::U64,
            "state"@ => Shape::Text,
            "confirmations_left"@ => Shape::U32,
            "value"@ => Shape::Amount,
            "user_reward"@ => Shape::Amount,
            "pool_scoring_hash_rate"@ => Shape::Number,
        ]
    }

    proof fn lemma_required(json: Json, key: Seq<char>) {
    }

}

/// Pool stats
#[derive(Debug, Clone)]
pub struct PoolStats {
    /// Pool hash rate for the last 5 minutes
    pub pool_5m_hash_rate: HashRate,
    /// Pool hash rate for the last 60 minutes
    pub pool_60m_hash_rate: HashRate,
    /// Pool hash rate for the last 24 hours
    pub pool_24h_hash_rate: HashRate,
    /// Update timestamp
    pub update_ts: u64,
    /// Blocks
    pub blocks: Table<Block>,
    /// FPPS rate
    pub fpps_rate: Decimal,
}

impl FromJson for PoolStats {
    open spec fn decodable(json: Json) -> bool {
        &&& unit_member(json) is Some
        &&& number_member(json, "pool_5m_hash_rate"@) is Some
        &&& number_member(json, "pool_60m_hash_rate"@) is Some
        &&& number_member(json, "pool_24h_hash_rate"@) is Some
        &&& u64_member(json, "update_ts"@) is Some
        &&& (json.member("blocks"@) matches Some(m) && Table::<Block>::decodable(m))
        &&& number_member(json, "fpps_rate"@) is Some
    }

    open spec fn decodes(self, json: Json) -> bool {
        &&& rate_member(json, "pool_5m_hash_rate"@) == Some(self.pool_5m_hash_rate@)
        &&& rate_member(json, "pool_60m_hash_rate"@) == Some(self.pool_60m_hash_rate@)
        &&& rate_member(json, "pool_24h_hash_rate"@) == Some(self.pool_24h_hash_rate@)
        &&& u64_member(json, "update_ts"@) == Some(self.update_ts)
        &&& (json.member("blocks"@) matches Some(m) && self.blocks.decodes(m))
        &&& number_member(json, "fpps_rate"@) == Some(self.fpps_rate@)
    }

    open spec fn shape() -> Shape {
        Shape::Object
    }

    proof fn lemma_shape(json: Json) {
    }

    fn from_json(json: &Json) -> (r: Option<PoolStats>) {
        let unit = get_unit(json)?;
        let pool_5m_hash_rate = get_rate(json, "pool_5m_hash_rate", unit)?;
        let pool_60m_hash_rate = get_rate(json, "pool_60m_hash_rate", unit)?;
        let pool_24h_hash_rate = get_rate(json, "pool_24h_hash_rate", unit)?;
        let update_ts = get_u64(json, "update_ts")?;
        let blocks = Table::<Block>::from_json(json.get("blocks")?)?;
        let fpps_rate = get_number(json, "fpps_rate")?;
        Some(
            PoolStats {
                pool_5m_hash_rate,
                pool_60m_hash_rate,
                pool_24h_hash_rate,
                update_ts,
                blocks,
                fpps_rate,
            },
        )
    }
}

impl Record for PoolStats {
    open spec fn required() -> Map<Seq<char>, Shape> {
        map![
            UNIT_KEY@ => Shape::Unit,
            "pool_5m_hash_rate"@ => Shape::Number,
            "pool_60m_hash_rate"@ => Shape::Number,
            "pool_24h_hash_rate"@ => Shape::Number,
            "update_ts"@ => Shape::U64,
            "blocks"@ => Shape::Object,
            "fpps_rate"@ => Shape::Number,
        ]
    }

    proof fn lemma_required(json: Json, key: Seq<char>) {
    }

}

/// User profile
#[derive(Debug, Clone, PartialEq)]
pub struct UserProfile {
    /// Cumulative all-time reward
    pub all_time_reward: Decimal,
    /// Average hash rate for the last 5 minutes
    pub hash_rate_5m: HashRate,
    /// Average hash rate for the last 60 minutes
    pub hash_rate_60m: HashRate,
    /// Average hash rate for the last 24 hours
    pub hash_rate_24h: HashRate,
    /// Average hash rate for the previous UTC day
    pub hash_rate_yesterday: HashRate,
    /// Number of workers with `low` state
    pub low_workers: u32,
    /// Number of workers with `off` state
    pub off_workers: u32,
    /// Number of workers with `ok` state
    pub ok_workers: u32,
    /// Number of workers with disabled monitoring
    pub dis_workers: u32,
    /// Current reward balance
    pub current_balance: Decimal,
    /// Confirmed reward for this day
    pub today_reward: Decimal,
    /// Estimated reward for the current block
    pub estimated_reward: Decimal,
    /// Active shares for last 5 minutes
    pub shares_5m: u32,
    /// Active shares for last 60 minutes
    pub shares_60m: u32,
    /// Active shares for last 24 hours
    pub shares_24h: u32,
    /// Active shares for yesterday
    pub shares_yesterday: u32,
}

impl FromJson for UserProfile {
    open spec fn decodable(json: Json) -> bool {
        &&& unit_member(json) is Some
        &&& amount_member(json, "all_time_reward"@) is Some
        &&& number_member(json, "hash_rate_5m"@) is Some
        &&& number_member(json, "hash_rate_60m"@) is Some
        &&& number_member(json, "hash_rate_24h"@) is Some
        &&& number_member(json, "hash_rate_yesterday"@) is Some
        &&& u32_member(json, "low_workers"@) is Some
        &&& u32_member(json, "off_workers"@) is Some
        &&& u32_member(json, "ok_workers"@) is Some
        &&& u32_member(json, "dis_workers"@) is Some
        &&& amount_member(json, "current_balance"@) is Some
        &&& amount_member(json, "today_reward"@) is Some
        &&& amount_member(json, "estimated_reward"@) is Some
        &&& u32_member(json, "shares_5m"@) is Some
        &&& u32_member(json, "shares_60m"@) is Some
        &&& u32_member(json, "shares_24h"@) is Some
        &&& u32_member(json, "shares_yesterday"@) is Some
    }

    open spec fn decodes(self, json: Json) -> bool {
        &&& amount_member(json, "all_time_reward"@) == Some(self.all_time_reward@)
        &&& rate_member(json, "hash_rate_5m"@) == Some(self.hash_rate_5m@)
        &&& rate_member(json, "hash_rate_60m"@) == Some(self.hash_rate_60m@)
        &&& rate_member(json, "hash_rate_24h"@) == Some(self.hash_rate_24h@)
        &&& rate_member(json, "hash_rate_yesterday"@) == Some(self.hash_rate_yesterday@)
        &&& u32_member(json, "low_workers"@) == Some(self.low_workers)
        &&& u32_member(json, "off_workers"@) == Some(self.off_workers)
        &&& u32_member(json, "ok_workers"@) == Some(self.ok_workers)
        &&& u32_member(json, "dis_workers"@) == Some(self.dis_workers)
        &&& amount_member(json, "current_balance"@) == Some(self.current_balance@)
        &&& amount_member(json, "today_reward"@) == Some(self.today_reward@)
        &&& amount_member(json, "estimated_reward"@) == Some(self.estimated_reward@)
        &&& u32_member(json, "shares_5m"@) == Some(self.shares_5m)
        &&& u32_member(json, "shares_60m"@) == Some(self.shares_60m)
        &&& u32_member(json, "shares_24h"@) == Some(self.shares_24h)
        &&& u32_member(json, "shares_yesterday"@) == Some(self.shares_yesterday)
    }

    open spec fn shape() -> Shape {
        Shape::Object
    }

    proof fn lemma_shape(json: Json) {
    }

    fn from_json(json: &Json) -> (r: Option<UserProfile>) {
        let unit = get_unit(json)?;
        let all_time_reward = get_amount(json, "all_time_reward")?;
        let hash_rate_5m = get_rate(json, "hash_rate_5m", unit)?;
        let hash_rate_60m = get_rate(json, "hash_rate_60m", unit)?;
        let hash_rate_24h = get_rate(json, "hash_rate_24h", unit)?;
        let hash_rate_yesterday = get_rate(json, "hash_rate_yesterday", unit)?;
        let low_workers = get_u32(json, "low_workers")?;
        let off_workers = get_u32(json, "off_workers")?;
        let ok_workers = get_u32(json, "ok_workers")?;
        let dis_workers = get_u32(json, "dis_workers")?;
        let current_balance = get_amount(json, "current_balance")?;
        let today_reward = get_amount(json, "today_reward")?;
        let estimated_reward = get_amount(json, "estimated_reward")?;
        let shares_5m = get_u32(json, "shares_5m")?;
        let shares_60m = get_u32(json, "shares_60m")?;
        let shares_24h = get_u32(json, "shares_24h")?;
        let shares_yesterday = get_u32(json, "shares_yesterday")?;
        Some(
            UserProfile {
                all_time_reward,
                hash_rate_5m,
                hash_rate_60m,
                hash_rate_24h,
                hash_rate_yesterday,
                low_workers,
                off_workers,
                ok_workers,
                dis_workers,
                current_balance,
                today_reward,
                estimated_reward,
                shares_5m,
                shares_60m,
                shares_24h,
                shares_yesterday,
            },
        )
    }
}

impl Record for UserProfile {
    open spec fn required() -> Map<Seq<char>, Shape> {
        map![
            UNIT_KEY@ => Shape::Unit,
            "all_time_reward"@ => Shape::Amount,
            "hash_rate_5m"@ => Shape::Number,
            "hash_rate_60m"@ => Shape::Number,
            "hash_rate_24h"@ => Shape::Number,
            "hash_rate_yesterday"@ => Shape::Number,
            "low_workers"@ => Shape::U32,
            "off_workers"@ => Shape::U32,
            "ok_workers"@ => Shape::U32,
            "dis_workers"@ => Shape::U32,
            "current_balance"@ => Shape::Amount,
            "today_reward"@ => Shape::Amount,
            "estimated_reward"@ => Shape::Amount,
            "shares_5m"@ => Shape::U32,
            "shares_60m"@ => Shape::U32,
            "shares_24h"@ => Shape::U32,
            "shares_yesterday"@ => Shape::U32,
        ]
    }

    proof fn lemma_required(json: Json, key: Seq<char>) {
    }

}

/// Daily reward
#[derive(Debug, Clone, PartialEq)]
pub struct DailyReward {
    /// Unix time (the first second of the date)
    pub date: u64,
    /// The sum of all reward types for the day
    pub total_reward: Decimal,
    /// The standard mining reward
    pub mining_reward: Decimal,
    /// The amount refunded (pool fee refund) for mining with Braiins OS
    pub bos_plus_reward: Decimal,
    /// Bonus received by being referred to Braiins OS
    pub referral_bonus: Decimal,
    /// Reward earned for HR referred to Braiins OS
    pub referral_reward: Decimal,
    /// Calculation date timestamp
    pub calculation_date: u64,
}

impl FromJson for DailyReward {
    open spec fn decodable(json: Json) -> bool {
        &&& u64_member(json, "date"@) is Some
        &&& amount_member(json, "total_reward"@) is Some
        &&& amount_member(json, "mining_reward"@) is Some
        &&& amount_member(json, "bos_plus_reward"@) is Some
        &&& amount_member(json, "referral_bonus"@) is Some
        &&& amount_member(json, "referral_reward"@) is Some
        &&& u64_member(json, "calculation_date"@) is Some
    }

    open spec fn decodes(self, json: Json) -> bool {
        &&& u64_member(json, "date"@) == Some(self.date)
        &&& amount_member(json, "total_reward"@) == Some(self.total_reward@)
        &&& amount_member(json, "mining_reward"@) == Some(self.mining_reward@)
        &&& amount_member(json, "bos_plus_reward"@) == Some(self.bos_plus_reward@)
        &&& amount_member(json, "referral_bonus"@) == Some(self.referral_bonus@)
        &&& amount_member(json, "referral_reward"@) == Some(self.referral_reward@)
        &&& u64_member(json, "calculation_date"@) == Some(self.calculation_date)
    }

    open spec fn shape() -> Shape {
        Shape::Object
    }

    proof fn lemma_shape(json: Json) {
    }

    fn from_json(json: &Json) -> (r: Option<DailyReward>) {
        let date = get_u64(json, "date")?;
        let total_reward = get_amount(json, "total_reward")?;
        let mining_reward = get_amount(json, "mining_reward")?;
        let bos_plus_reward = get_amount(json, "bos_plus_reward")?;
        let referral_bonus = get_amount(json, "referral_bonus")?;
        let referral_reward = get_amount(json, "referral_reward")?;
        let calculation_date = get_u64(json, "calculation_date")?;
        Some(
            DailyReward {
                date,
                total_reward,
                mining_reward,
                bos_plus_reward,
                referral_bonus,
                referral_reward,
                calculation_date,
            },
        )
    }
}

impl Record for DailyReward {
    open spec fn required() -> Map<Seq<char>, Shape> {
        map![
            "date"@ => Shape::U64,
            "total_reward"@ => Shape::Amount,
            "mining_reward"@ => Shape::Amount,
            "bos_plus_reward"@ => Shape::Amount,
            "referral_bonus"@ => Shape::Amount,
            "referral_reward"@ => Shape::Amount,
            "calculation_date"@ => Shape::U64,
        ]
    }

    proof fn lemma_required(json: Json, key: Seq<char>) {
    }

}

/// Daily rewards
#[derive(Debug, Clone, PartialEq)]
pub struct DailyRewards {
    /// Daily rewards
    pub daily_rewards: Vec<DailyReward>,
}

impl FromJson for DailyRewards {
    open spec fn decodable(json: Json) -> bool {
        &&& (json.member("daily_rewards"@) matches Some(m) && Vec::<DailyReward>::decodable(m))
    }

    open spec fn decodes(self, json: Json) -> bool {
        &&& (json.member("daily_rewards"@) matches Some(m) && self.daily_rewards.decodes(m))
    }

    open spec fn shape() -> Shape {
        Shape::Object
    }

    proof fn lemma_shape(json: Json) {
    }

    fn from_json(json: &Json) -> (r: Option<DailyRewards>) {
        let daily_rewards = Vec::<DailyReward>::from_json(json.get("daily_rewards")?)?;
        Some(
            DailyRewards {
                daily_rewards,
            },
        )
    }
}

impl Record for DailyRewards {
    open spec fn required() -> Map<Seq<char>, Shape> {
        map![
            "daily_rewards"@ => Shape::Array,
        ]
    }

    proof fn lemma_required(json: Json, key: Seq<char>) {
    }

}

/// Worker
#[derive(Debug, Clone, PartialEq)]
pub struct Worker {
    /// State of the worker (`ok`/`low`/`off`/`dis`)
    pub state: String,
    /// Unix time of the last accepted share
    pub last_share: u64,
    /// Current scoring hash rate
    pub hash_rate_scoring: HashRate,
    /// Average hash rate for the last 5 minutes
    pub hash_rate_5m: HashRate,
    /// Average hash rate for the last 60 minutes
    pub hash_rate_60m: HashRate,
    /// Average hash rate for the last 24 hours
    pub hash_rate_24h: HashRate,
    /// Active shares for last 5 minutes
    pub shares_5m: u64,
    /// Active shares for last 60 minutes
    pub shares_60m: u64,
    /// Active shares for last 24 hours
    pub shares_24h: u64,
}

impl FromJson for Worker {
    open spec fn decodable(json: Json) -> bool {
        &&& unit_member(json) is Some
        &&& text_member(json, "state"@) is Some
        &&& u64_member(json, "last_share"@) is Some
        &&& number_member(json, "hash_rate_scoring"@) is Some
        &&& number_member(json, "hash_rate_5m"@) is Some
        &&& number_member(json, "hash_rate_60m"@) is Some
        &&& number_member(json, "hash_rate_24h"@) is Some
        &&& u64_member(json, "shares_5m"@) is Some
        &&& u64_member(json, "shares_60m"@) is Some
        &&& u64_member(json, "shares_24h"@) is Some
    }

    open spec fn decodes(self, json: Json) -> bool {
        &&& text_member(json, "state"@) == Some(self.state@)
        &&& u64_member(json, "last_share"@) == Some(self.last_share)
        &&& rate_member(json, "hash_rate_scoring"@) == Some(self.hash_rate_scoring@)
        &&& rate_member(json, "hash_rate_5m"@) == Some(self.hash_rate_5m@)
        &&& rate_member(json, "hash_rate_60m"@) == Some(self.hash_rate_60m@)
        &&& rate_member(json, "hash_rate_24h"@) == Some(self.hash_rate_24h@)
        &&& u64_member(json, "shares_5m"@) == Some(self.shares_5m)
        &&& u64_member(json, "shares_60m"@) == Some(self.shares_60m)
        &&& u64_member(json, "shares_24h"@) == Some(self.shares_24h)
    }

    open spec fn shape() -> Shape {
        Shape::Object
    }

    proof fn lemma_shape(json: Json) {
    }

    fn from_json(json: &Json) -> (r: Option<Worker>) {
        let unit = get_unit(json)?;
        let state = get_text(json, "state")?;
        let last_share = get_u64(json, "last_share")?;
        let hash_rate_scoring = get_rate(json, "hash_rate_scoring", unit)?;
        let hash_rate_5m = get_rate(json, "hash_rate_5m", unit)?;
        let hash_rate_60m = get_rate(json, "hash_rate_60m", unit)?;
        let hash_rate_24h = get_rate(json, "hash_rate_24h", unit)?;
        let shares_5m = get_u64(json, "shares_5m")?;
        let shares_60m = get_u64(json, "shares_60m")?;
        let shares_24h = get_u64(json, "shares_24h")?;
        Some(
            Worker {
                state,
                last_share,
                hash_rate_scoring,
                hash_rate_5m,
                hash_rate_60m,
                hash_rate_24h,
                shares_5m,
                shares_60m,
                shares_24h,
            },
        )
    }
}

impl Record for Worker {
    open spec fn required() -> Map<Seq<char>, Shape> {
        map![
            UNIT_KEY@ => Shape::Unit,
            "state"@ => Shape::Text,
            "last_share"@ => Shape::U64,
            "hash_rate_scoring"@ => Shape::Number,
            "hash_rate_5m"@ => Shape::Number,
            "hash_rate_60m"@ => Shape::Number,
            "hash_rate_24h"@ => Shape::Number,
            "shares_5m"@ => Shape::U64,
            "shares_60m"@ => Shape::U64,
            "shares_24h"@ => Shape::U64,
        ]
    }

    proof fn lemma_required(json: Json, key: Seq<char>) {
    }

}

/// Workers
#[derive(Debug, Clone)]
pub struct Workers {
    /// Workers
    pub workers: Table<Worker>,
}

impl FromJson for Workers {
    open spec fn decodable(json: Json) -> bool {
        &&& (json.member("workers"@) matches Some(m) && Table::<Worker>::decodable(m))
    }

    open spec fn decodes(self, json: Json) -> bool {
        &&& (json.member("workers"@) matches Some(m) && self.workers.decodes(m))
    }

    open spec fn shape() -> Shape {
        Shape::Object
    }

    proof fn lemma_shape(json: Json) {
    }

    fn from_json(json: &Json) -> (r: Option<Workers>) {
        let workers = Table::<Worker>::from_json(json.get("workers")?)?;
        Some(
            Workers {
                workers,
            },
        )
    }
}

impl Record for Workers {
    open spec fn required() -> Map<Seq<char>, Shape> {
        map![
            "workers"@ => Shape::Object,
        ]
    }

    proof fn lemma_required(json: Json, key: Seq<char>) {
    }

}

} // verus!
