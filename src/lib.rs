//! A small voting ledger: topics with two or three answer options, stored at
//! addresses derived from their identifiers, and one vote per participant and
//! topic, stored at an address derived from the topic and the participant.
pub mod address;
pub mod error;
pub mod guarantees;
pub mod ledger;
