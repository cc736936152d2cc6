//! The core of a relay between a publish/subscribe bus and a downstream
//! receiver: for an inbound topic and payload it decides whether anything
//! is forwarded, and as which topics and values.
//!
//! - [`text`]: characters, trimming, case folding and decimal text.
//! - [`normalize`]: topics as flat identifiers.
//! - [`boolean`]: values that read as booleans become `1` or `0`.
//! - [`cache`] and [`memo`]: a bounded cache, and the two normalisers that
//!   remember their results in one.
//! - [`filter`]: lists of regular expressions compiled into one matcher.
//! - [`json`] and [`flatten`]: parsed payloads and their flattening into
//!   pairs of path and text.
//! - [`whitelist`]: the normalised topics that may pass.
//! - [`payload`]: the text of a raw payload.
//! - [`config`], [`processor`], [`control`] and [`report`]: the
//!   configuration, the pipeline, the routing of control topics, and the
//!   reports that the relay publishes.
//!
//! Every function is verified against its contract, but for the calls into
//! the crates `regex`, `lru`, `serde_json` and `serde_json_borrow` and two
//! calls into the standard library: these are trusted, and each stands in
//! an item of its own whose comment begins with `Trusted:`.

pub mod boolean;
pub mod cache;
pub mod config;
pub mod control;
pub mod filter;
pub mod flatten;
pub mod json;
pub mod memo;
pub mod normalize;
pub mod payload;
pub mod processor;
pub mod report;
pub mod text;
pub mod whitelist;
