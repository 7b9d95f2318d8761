//! Verified core of a desktop mail client for a ProtonMail IMAP/SMTP bridge:
//! rule evaluation, classification heuristics, flag bookkeeping, message
//! composition and synchronisation decisions.

pub mod automation;
pub mod classify;
pub mod compose;
pub mod dates;
pub mod engine;
pub mod flags;
pub mod hydroxide;
pub mod ids;
pub mod json;
pub mod mail;
pub mod message;
pub mod schema;
pub mod session;
pub mod sync;
pub mod text;

use vstd::prelude::*;

verus! {

} // verus!
