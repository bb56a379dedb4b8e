#![allow(unused_imports)]

use vstd::prelude::*;

pub mod cache;
pub mod channels;
pub mod chat;
pub mod clock;
pub mod config;
pub mod config_laws;
pub mod encoding;
pub mod json;
pub mod json_ops;
pub mod loaders;
pub mod model;
pub mod number;
pub mod pair_map;
pub mod path_laws;
pub mod paths;
pub mod progress;
pub mod progress_laws;
pub mod telegram;
pub mod terminal_laws;
pub mod terminal_sessions;
pub mod text;
pub mod text_map;
pub mod utf16;
pub mod value_laws;
pub mod web;
pub mod web_terminal;
pub mod words;

verus! {

} // verus!
