pub mod text;
pub mod decimal;
pub mod sync;
pub mod order;
pub mod clock;
pub mod state;
pub mod audio_queue;
pub mod lyrics;
pub mod error;
pub mod library;
pub mod auth;
pub mod digest;
pub mod netease_crypto;
pub mod wbi;
pub mod netease;
pub mod downloads;
pub mod lyrics_source;
pub mod scanner;
pub mod playback;
