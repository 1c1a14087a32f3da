//! Presentation rules of the clipboard panel.
pub mod clipboard_panel;
