//! Prelude

pub use crate::builder::BraiinsPoolClientBuilder;
pub use crate::client::{deserialize, request, Client, Endpoint, BASE_URL};
pub use crate::decimal::Decimal;
pub use crate::error::Error;
pub use crate::hashrate::HashRate;
pub use crate::json::Json;
pub use crate::model::{
    Block, BtcResponse, DailyReward, DailyRewards, FromJson, PoolStats, Record, UserProfile,
    Worker, Workers,
};
pub use crate::table::Table;
pub use crate::unit::HashRateUnit;
