//! A small engine for running shell-like command lines without a shell.
//!
//! Command text is a pipeline of stages parted by `|`, or a sequence of such
//! pipelines parted by `;`. Single and double quotes keep text together;
//! `${name}` stands for the value of a variable. This library says what such
//! text means, and a host that can start processes does what it says:
//!
//! - `quote` tracks whether a scan is inside a quoted span;
//! - `text` tells white space and trims it;
//! - `token` cuts text into arguments, stages and commands;
//! - `resolve` puts the values of variables in the place of references;
//! - `pipe` holds what is known of an open pipeline: what to start, its
//!   label, what the exit of its last stage comes to;
//! - `run` leads a host through a whole run, one action at a time;
//! - `error` names the failures.
//!
//! Every function states what it returns over character sequences, and
//! Verus proves that it does.

pub mod error;
pub mod pipe;
pub mod quote;
pub mod resolve;
pub mod run;
pub mod text;
pub mod token;
