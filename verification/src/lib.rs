//! Verified core of a toolkit for writing Arma 3 extensions: the text format
//! Arma uses to pass values, the unit loadout array, call context data and
//! the feature flags exchanged with the game.

pub mod flags;
pub mod text;
pub mod value;
pub mod call_context;
pub mod testing;
pub mod command;
pub mod group;
pub mod derive_rules;
pub mod arma_info;
pub mod callback;

pub use call_context::{CallContext, CallContextStackTrace, Caller, Mission, Server, Source};
pub use testing::Result;
pub use value::from_arma::{FromArma, FromArmaError};
pub use value::loadout;
