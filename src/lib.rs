//! Keystroke capture, word-boundary detection and synthetic text replacement
//! for a system-wide autocorrect service, together with the text and data
//! utilities of its companion command-line tools.

// The autocorrect service.
pub mod buffer;
pub mod config;
pub mod injector;
pub mod keymap;
pub mod listener;

// Shared building blocks.
pub mod table;
pub mod text;

// The command-line tools.
pub mod config_loader;
pub mod crawler;
pub mod fib;
pub mod greeting;
pub mod grep;
pub mod hash;
pub mod mem_db;
pub mod optimizer;
pub mod password;
pub mod ports;
pub mod run_info;
pub mod stack;
pub mod summary;
pub mod temp;
pub mod wc;

use vstd::prelude::*;

verus! {

/// Correction counters and table sizes, as reported to the user.
#[derive(Clone, Copy, Debug, PartialEq, Eq, Structural)]
pub struct Stats {
    pub total_corrections: u64,
    pub session_corrections: u64,
    pub dictionary_size: usize,
    pub custom_corrections: usize,
}

} // verus!
