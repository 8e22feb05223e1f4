//! A download manager: files over HTTP, in chunks over several connections, and torrents.
//!
//! The library decides. It cuts files into chunks and says what to ask servers for, reads their
//! answers, follows tasks from report to report, and says what the window shows and what a click
//! sets going. Files and sockets are left to the program around it. Of the machine the library asks
//! only the user's directories, for which the environment and the file that lists them are read,
//! the time, and random ids.

pub mod bt;
pub mod chunks;
pub mod config;
pub mod engine;
pub mod font;
pub mod format;
pub mod lifecycle;
pub mod manager;
pub mod paths;
pub mod probe;
pub mod registry;
pub mod runs;
pub mod screen;
pub mod task;
pub mod text;
pub mod ui;
