//! The verified core of a menu-bar clipboard history manager.
use vstd::prelude::*;

pub mod accessibility;
pub mod app;
pub mod autopaste;
pub mod calendar;
pub mod capture;
pub mod cli;
pub mod clipboard;
pub mod digest;
pub mod history;
pub mod hotkey;
pub mod launch;
pub mod launch_agent;
pub mod lists;
pub mod numbers;
pub mod panel;
pub mod privacy;
pub mod rows;
pub mod settings;
pub mod status_item;
pub mod storage;
pub mod text;
pub mod timestamps;

verus! {

} // verus!
