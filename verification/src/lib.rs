//! Decision logic, text rules and data formats of a Windows memory cleaner
//! with a clipboard history.
use vstd::prelude::*;

pub mod app;
pub mod clipboard;
pub mod log;
pub mod memory;
pub mod messages;
pub mod optimize;
pub mod text;
pub mod ui;
pub mod version;
pub mod win32;

verus! {

} // verus!
