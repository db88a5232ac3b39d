pub mod audio;
pub mod discord;
