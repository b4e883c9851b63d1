//! swiftDialog-compatible contract logic: the option table, command-line
//! parsing, JSON input, dialog state, the command-file protocol, user-input
//! validation and the exit-output contract. Free of any UI so that the whole
//! scripting contract is checked without a display.

pub mod exit_codes;
pub mod text;
pub mod number;
pub mod options;
pub mod parser;
pub mod suboptions;
pub mod config;
pub mod compat;
pub mod icon;
pub mod state;
pub mod elements;
pub mod commands;
pub mod output;
pub mod regex_lite;
pub mod validation;
pub mod commandfile;
pub mod session;
pub mod laws;
