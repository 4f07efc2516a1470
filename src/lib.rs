//! Per-user persistent state for a chat bot: records, progression, economy,
//! inventory and equipment, command history, and the per-invocation flow
//! that ties them together.

pub mod analytics;
pub mod clock;
pub mod dispatch;
pub mod error;
pub mod inventory;
pub mod item;
pub mod ledger;
pub mod progression;
pub mod store;
pub mod user;

pub use clock::{get_current_millis, ClockError};
pub use dispatch::{EventKind, Phase, RetryPolicy};
pub use error::CoreError;
pub use item::Item;
pub use ledger::{Funding, LedgerOp};
pub use store::UserStore;
pub use user::{CommandUsed, User, MAX_COMMAND_HISTORY};
