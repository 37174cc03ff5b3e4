//! A small command shell for a Nacos configuration server.
//!
//! The verified part holds the logic of the shell: how the server address
//! and request URLs are formed, how command configurations are looked up,
//! how arguments are gathered, how a reply is turned into a table, and which
//! action a parsed command line asks for.

pub mod text;
pub mod assoc;
pub mod clap_cli;
pub mod command;
pub mod json_struct;
pub mod json_value;
pub mod login;
pub mod print_screen;
pub mod req;
pub mod url_util;
