//! Core logic of a desktop notification popup: resolving icon names against
//! a freedesktop-style icon theme tree, and the decisions behind painting a
//! notification's bordered background block.

pub mod block;
pub mod icons;
pub mod paths;
