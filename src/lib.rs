//! Switching the active Shadowsocks configuration: which files may be chosen,
//! how the active link is reported, and the stop / relink / start sequence
//! that replaces it.

pub mod names;
pub mod candidates;
pub mod switch;
pub mod privilege;
