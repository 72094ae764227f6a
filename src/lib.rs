//! Credential lifecycle for an identity provider with chained token exchange:
//! a verified credential codec, expiry classification, the resolution state
//! machine and the secondary-service exchange.

pub mod account;
pub mod catalog;
pub mod instant;
pub mod json;
pub mod lifecycle;
pub mod secondary;
pub mod service;
pub mod text;

pub use account::{Account, MalformedCredential};
pub use catalog::{CalendarEvent, SparkTrack, SparkTrackIntensities};
pub use instant::{Freshness, Instant};
pub use lifecycle::{Action, Event, Resolution, ResolutionFailure, StoreUnavailable};
pub use secondary::{SecondaryAction, SecondaryEvent, SecondaryExchange};
pub use service::{AccountPublicService, ExchangeCode, ExchangeError};
pub use text::ascii_bar;
