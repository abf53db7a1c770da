//! Engine-independent core of a voxel game: block and chunk storage, input
//! state, text editing and layout, the user interface's vertices, chat
//! bookkeeping, the menu screens' decisions, the server's bookkeeping of ids,
//! entities and what each player is told, and the small pieces of the network
//! protocol that are plain data.

pub mod world;
pub mod input;
pub mod server;
pub mod renderer;
pub mod text;
pub mod text_box;
pub mod chat;
pub mod states;
pub mod networking;
