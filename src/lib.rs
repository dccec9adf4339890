//! Orchestration logic for installing a set of conda packages into a prefix:
//! the package records, the transaction between the current and the desired
//! state, the order in which work is dispatched, the metadata records that are
//! written, and the state machine that drives the two phases of an install.
//!
//! The work itself (fetching into the cache, linking, unlinking, writing
//! files) belongs to the runtime around this crate: it starts an
//! [`session::InstallSession`] through [`installer::Installer::prepare`],
//! performs each [`session::Action`] it is handed, and reports back with an
//! [`session::Event`].
pub mod error;
pub mod record;
pub mod transaction;
pub mod plan;
pub mod metadata;
pub mod session;
pub mod reporter;
pub mod installer;
