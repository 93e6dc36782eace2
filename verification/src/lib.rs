//! Verified core of a command line tool that reads a chat client's local data:
//! it decides, parses and plans, and leaves every read and write to its caller.
#![allow(unused_imports)]

pub mod attachment;
pub mod audio;
pub mod bytes;
pub mod calendar;
pub mod command;
pub mod config_merge;
pub mod config_text;
pub mod digest;
pub mod init;
pub mod media_search;
pub mod ordering;
pub mod packed_info;
pub mod paths;
pub mod privileges;
pub mod request;
pub mod resolve;
pub mod resource_db;
pub mod search_outcome;
pub mod sql;
pub mod sql_meaning;
pub mod text;
pub mod tools;
pub mod transcribe;
pub mod transcript;
pub mod voice_db;
pub mod wxgf;
