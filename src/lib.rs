//! A counter kept in an account's byte buffer: each call of the program
//! against an account that it owns adds one to the stored counter.
//!
//! `record` holds the persisted record and its four-byte encoding;
//! `account` holds the identities and account handles of one invocation;
//! `processor` holds the state transition itself.
pub mod account;
pub mod processor;
pub mod record;

pub use account::{Account, Identity};
pub use processor::process_instruction;
pub use record::{GreetingAccount, GreetingError, RECORD_LEN};
