pub mod auth;
pub mod e2e;
pub mod ids;
pub mod librist;
pub mod protocol_args;
pub mod receiver_args;
pub mod rist;
pub mod srt;
pub mod srt_element;
pub mod store;
pub mod studio;
pub mod team;
pub mod team_api;
pub mod text;
