pub mod models;
pub mod merge;
pub mod merge_laws;
pub mod local;
pub mod codec;
pub mod compact;
pub mod remote;
pub mod settings;
pub mod flow;
