//! What holds of the engine as a whole.

pub mod amounts;
pub mod balances;
pub mod clients;
pub mod ledgers;
pub mod pages;
pub mod rows;
pub mod rulings;
pub mod schedules;
pub mod texts;
