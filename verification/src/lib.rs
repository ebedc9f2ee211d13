//! A task tracker's storage engine: the record format, the record set and
//! the lifecycle of its tasks.

pub mod codec;
pub mod database;
pub mod decimal;
pub mod error;
pub mod lifecycle;
pub mod record;
pub mod run;
pub mod task;
pub mod text;
