//! Need-driven person simulation: fixed-point needs, action scoring and
//! selection, and the per-person task state machine.
//!
//! All quantities are fixed-point integers. Time is counted in milliseconds,
//! need levels in millionths (so `1_000_000` is a fully satisfied need),
//! rates in thousandths per second, lengths in thousandths of a world unit
//! and scores in thousandths.

pub mod action;
pub mod action_advertisement;
pub mod entropy;
pub mod furniture;
pub mod person;
pub mod person_ai;
pub mod person_needs;
pub mod text;
pub mod time;
pub mod vector;
pub mod world;

pub use action::Action;
pub use action_advertisement::{ActionAdvertisement, ActionAdvertisementStat};
pub use furniture::Furniture;
pub use person::{Person, Task, TaskState};
pub use person_ai::PersonAi;
pub use person_needs::PersonNeeds;
pub use time::TimeScale;
pub use world::World;
