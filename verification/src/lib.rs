//! State and data layer of a chat client: activity-feed assembly, the
//! conversation expansion store, team and channel navigation, and the keyed
//! resource cache. Everything here is a pure function of plain values or a
//! small state machine; rendering and fetching live outside this crate.

pub mod cache;
pub mod feed;
pub mod keyed;
pub mod model;
pub mod navigator;
pub mod pages;
pub mod text;
pub mod threads;
