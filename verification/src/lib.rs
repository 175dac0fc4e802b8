//! Notification ping engine: scans free text for mentions and acknowledgements,
//! and turns resolved mentions into notification records.

pub mod command;
pub mod directory;
pub mod handler;
pub mod handler_proofs;
pub mod ledger;
pub mod model;
pub mod ping;
pub mod ping_proofs;
pub mod scan;
