//! Verified core of the NaYan suggestion inbox.
pub mod capture;
pub mod clipwatch;
pub mod inbox;
pub mod keys;
pub mod settings;
pub mod text;
