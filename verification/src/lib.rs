//! Decoder core for a pulse-width-modulated (OOK/ASK) remote-control signal.
//!
//! The pipeline turns raw timer captures into corrected periods
//! ([`capture`]), accumulates them in a fixed-capacity circular window
//! ([`window`]), and matches the window against a library of period
//! templates with per-template tolerance ([`pattern`], [`settings`]),
//! clearing matched regions so the same samples cannot trigger twice
//! ([`decoder`]).

pub mod capture;
pub mod decoder;
pub mod pattern;
pub mod settings;
pub mod window;
