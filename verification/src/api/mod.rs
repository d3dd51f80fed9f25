//! Requests to the KDE Store: which pages are asked for, how a failed request is repeated, and
//! what is made of the answers.

pub mod client;
pub mod config;
