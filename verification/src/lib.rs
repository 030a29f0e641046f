//! A verified library built around a fixed-size worker pool: a supervisor
//! that validates its size, tracks submission/progress counters, and drives
//! two shutdown protocols over a FIFO message queue.  The companion modules
//! hold the other verified components that share the crate: two stack-like
//! lists, the snake-game rules, a small grep configuration, and a few
//! generic utilities.

pub mod dbconn;
pub mod game;
pub mod generics;
pub mod longest;
pub mod minigrep;
pub mod mylinkedlist_v1;
pub mod mylinkedlist_v2;
pub mod pool;
pub mod rect;
pub mod summary;
pub mod textutil;
