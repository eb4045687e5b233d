//! Epoch changes.
pub mod epoch_transition;
pub mod mode_transition;
pub mod tx_recovery;
pub mod verification;
