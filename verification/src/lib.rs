//! The logic of a mock distribution server and of a mock forward proxy for testing downloads.

pub mod atomic_write;
pub mod auth;
pub mod data_map;
pub mod encoding;
pub mod headers;
pub mod lifecycle;
pub mod mock_data;
pub mod proxy;
pub mod response;
pub mod round_trip;
pub mod server;
pub mod text;
