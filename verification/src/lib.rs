//! The network side of a Screeps client, written as state machines.
//!
//! Nothing in this crate touches a socket, a channel or a clock. Each part of the network layer is
//! a value which is told what has happened and answers with what to do next. The program around it
//! performs those actions and reports how they went.

pub mod command;
pub mod error;
pub mod far_rooms;
pub mod far_rooms_laws;
pub mod login;
pub mod message;
pub mod read;
pub mod request;
pub mod room;
pub mod room_set;
pub mod single_threaded;
pub mod terrain;
pub mod threaded_handler;
pub mod tokio_executor;
pub mod view_laws;
pub mod ws;
pub mod ws_laws;
