//! The reducers: the transactions clients call. A reducer that returns an
//! error leaves the database as it found it.
pub mod servers;
pub mod channels;
pub mod threads;
pub mod users;
pub mod messages;
pub mod direct_messages;
