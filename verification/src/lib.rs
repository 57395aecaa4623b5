//! The state and rules of a terminal dashboard over pull requests, work items and
//! pipeline runs from several forges: the section lists (filtering, sorting, grouping),
//! the tab strip and key routing, the full-screen item views, the pipeline drill-in with
//! its log pane, saved views, the inbox and the connections screen. Each function states
//! its behaviour in its contract, and each contract is proved of the code.
use vstd::prelude::*;

pub mod actions;
pub mod browser;
pub mod click;
pub mod collapse;
pub mod compare;
pub mod config;
pub mod decor;
pub mod cursor;
pub mod detail;
pub mod diff;
pub mod drill;
pub mod inbox;
pub mod keys;
pub mod lists;
pub mod logs;
pub mod notify;
pub mod order;
pub mod pipeline;
pub mod pipes;
pub mod pool;
pub mod preview;
pub mod prompts;
pub mod prscan;
pub mod prview;
pub mod purge;
pub mod reload;
pub mod review;
pub mod routing;
pub mod scan;
pub mod scope;
pub mod sections;
pub mod setup;
pub mod state;
pub mod tabs;
pub mod text;
pub mod time;
pub mod views;
pub mod wiact;

verus! {

} // verus!
