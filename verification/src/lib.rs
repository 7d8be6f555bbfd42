pub mod action;
pub mod args;
pub mod binding;
pub mod calls;
pub mod check;
pub mod clipboard;
pub mod codes;
pub mod command;
pub mod config;
pub mod exe;
pub mod foreground;
pub mod inject;
pub mod launcher;
pub mod log;
pub mod nesting;
pub mod process;
pub mod start;
pub mod stop;
pub mod text;
pub mod wait;
pub mod wide;
pub mod window;
pub mod winpath;
pub mod worker;
