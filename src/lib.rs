//! Decision core of an IRC bot that routes every inbound message through a
//! set of plugins and sends their replies back to the network.
//!
//! The library holds the parts of the bot that decide: which plugins are
//! loaded, how the connection authenticates, which plugin sees which
//! message, how replies are collected and fanned out, how many tasks may run
//! at once, and how the whole run moves from start to exit. The program
//! around it performs the network and plugin calls and feeds the outcomes
//! back in.

pub mod auth;
pub mod registry;
pub mod pool;
pub mod dispatch;
pub mod outbound;
pub mod startup;
pub mod run;
pub mod text;
pub mod url_plugin;
