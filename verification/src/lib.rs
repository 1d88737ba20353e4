//! The consistency core of a club's event service.
//!
//! Users and events live in a document store that updates one document
//! atomically and no more. This library holds what must stay right in spite
//! of that:
//!
//! - `token` and `auth`: signed session tokens, and the admission that every
//!   protected operation passes first: signature and expiry, then the
//!   revocation ledger, then privilege, then the subject's existence;
//! - `membership`: joining and leaving an event, which writes the event's
//!   attendee list first and the user's list second, and undoes the first
//!   write when the second fails; `consistency` holds the laws of both;
//! - `pin`: pinning one event at most, in a transaction where the store has
//!   them and by two writes in turn where it has not.
//!
//! `respond`, `update`, `signup` and `login` hold what the routine
//! operations decide: which privilege each asks for, what an update writes,
//! which sign-ups are turned down, and how each answer of the store is
//! reported.
//!
//! Each coordinator is a state machine from the store's last answer to the
//! next request (`store`), so that whoever owns the connection makes the
//! calls. `memory` is a store kept in memory that can be told to fail chosen
//! calls; the coordinators' laws are stated against its model.

pub mod auth;
pub mod clock;
pub mod config;
pub mod consistency;
pub mod failure;
pub mod hex;
pub mod ident;
pub mod ledger;
pub mod login;
pub mod membership;
pub mod memory;
pub mod models;
pub mod pin;
pub mod respond;
pub mod seqs;
pub mod signup;
pub mod store;
pub mod token;
pub mod update;
