//! Typed decoding and response classification for the Braiins Pool REST API.
//!
//! The crate holds the parts of a pool client that can be reasoned about
//! without a network: the unit-aware hash-rate value, the decoders that turn
//! a JSON document into the domain records, the mapping from an HTTP
//! status to the error taxonomy, and the checks on a client's settings.
//! It sends nothing itself: a caller performs the `GET` that an
//! [`client::Endpoint`] names and hands the status and the body of the
//! answer to the [`client::Client`].
//!
//! Numbers are kept exactly. An amount such as `"12.92594863"` and a rate
//! such as `5727000000.746604` become a [`decimal::Decimal`], an integer
//! mantissa with a power of ten, and a [`hashrate::HashRate`] scales to
//! hashes per second by adding to that power: nothing is rounded on the
//! way.
//!
//! The modules, from the leaves up:
//! - [`ascii`], [`scan`], [`text`]: bytes, runs of digits, and comparing
//!   and searching text;
//! - [`decimal`], [`magnitude`], [`unit`], [`hashrate`], [`order`]: exact
//!   numbers, their units and their order;
//! - [`json`], [`field`], [`table`], [`model`]: documents, their members,
//!   and the records that they write;
//! - [`error`], [`builder`], [`client`]: the error taxonomy, the settings
//!   of a client, and the classification of answers.

pub mod ascii;
pub mod builder;
pub mod client;
pub mod decimal;
pub mod error;
pub mod field;
pub mod hashrate;
pub mod json;
pub mod magnitude;
pub mod model;
pub mod order;
pub mod prelude;
pub mod scan;
pub mod table;
pub mod text;
pub mod unit;
