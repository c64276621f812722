//! Decision logic of a browser screencast stream.
//!
//! A background task sits between a browser, reached over the Chrome DevTools
//! Protocol, and the viewers that watch the page. The task's input and output are
//! asynchronous; what it decides on each wake-up is here, as functions on plain
//! values with contracts.
#![allow(unused_imports)]

use vstd::prelude::*;

pub mod action;
pub mod command;
pub mod event;
pub mod in_flight;
pub mod json;
mod keys;
pub mod message;
pub mod payload;
pub mod stream;
pub mod tabs;
pub mod text;
pub mod value;
