//! The agent client protocol side: normalized session events, advertised
//! configuration menus, the process pool and the client's decisions.

pub mod normalize;
pub mod pool;
pub mod probe;
pub mod types;
pub mod client;
