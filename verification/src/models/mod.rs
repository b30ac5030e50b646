//! The data model: archive records, report entries and notifications.

pub mod channel;
pub mod discord_models;
pub mod events;
pub mod message;
pub mod observer;
pub mod payment;
pub mod user;
pub mod user_data;

pub use channel::{TopChannel, TopDM};
pub use discord_models::{DApplicationCommandUsed, DChannel, DGuild, DMessage};
pub use events::{Event, EventCount, EventKind, MostUsedCommand};
pub use message::{Message, WordCount};
pub use observer::{ExtractObserver, OnError, OnProgress};
pub use payment::Payment;
pub use user::{DPayment, DRelationship, DRelationshipUser, DUser};
pub use user_data::{UserData, HOURS};
