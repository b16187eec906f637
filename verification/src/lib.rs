//! A terminal chat client's core: the application state machine, message
//! mention rendering, gateway session handling and API request building.
pub mod text;
pub mod model;
pub mod mentions;
pub mod editing;
pub mod channels;
pub mod keyed;
pub mod app;
pub mod events;
pub mod input;
pub mod selection;
pub mod dispatch;
pub mod gateway;
pub mod api;
pub mod config;
pub mod keys;
pub mod vim;
pub mod laws;
