pub mod state;
pub mod cookies;
pub mod youtube_hash;
pub mod login;
