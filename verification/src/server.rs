//! Server-side bookkeeping: player and network ids, and the mapping from
//! network ids to ECS entities.

pub mod components;
pub mod net;
