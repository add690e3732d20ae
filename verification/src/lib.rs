//! An in-memory key-value store that forgets: every record carries a retention
//! chance, and each eviction sweep rolls the dice for one record picked at random.

pub mod adapter;
pub mod binary64;
pub mod db;
pub mod decimal;
pub mod model;
pub mod random;
pub mod record;
pub mod text;
pub mod value;

pub use crate::binary64::Binary64;
pub use crate::db::{Db, NotFoundError};
pub use crate::record::{Data, Id, CHANCE_SCALE};
pub use crate::value::DataValue;
