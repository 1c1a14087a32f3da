//! Windows-facing logic: process and window rules, mutex and registry
//! protocols, volume enumeration data.
pub mod wide;
pub mod volume;
pub mod nt;
pub mod process;
pub mod startup;
pub mod single_instance;
pub mod focus;
pub mod window;
pub mod win_v_registry;
pub mod message_loop;
