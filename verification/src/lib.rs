//! Shared progress tracking for small cooperative groups.
//!
//! A group defines milestones. Each member's progress toward a milestone is
//! derived from the state snapshots that the member's game client pushes, and a
//! milestone completes once every current member of the group has reached the
//! full mark. Everything in this crate works on plain values; fetching and
//! storing them is left to the caller.
//!
//! The heart of the crate is the calculator in `progress`, which turns a
//! snapshot into a percentage, the store of progress records in `store`, the
//! rule of completion in `completion`, and the board in `group_milestones`,
//! which holds the state of one group and carries out the operations on it.
//! `listing` reads a board, and `laws` proves what holds of every board.
//! The remaining modules serve the scoring features around the milestones.

pub mod completion;
pub mod custom_config;
pub mod custom_plugin_api;
pub mod custom_points;
pub mod error;
pub mod find;
pub mod group;
pub mod group_milestones;
pub mod json;
pub mod laws;
pub mod listing;
pub mod milestone;
pub mod percent;
pub mod progress;
pub mod slayer_task_api;
pub mod store;
pub mod text;
pub mod valuable_drops_api;
