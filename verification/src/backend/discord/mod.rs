pub mod actions;
pub mod attachments;
pub mod calls;
pub mod channels;
pub mod commands;
pub mod conversations;
pub mod dave;
pub mod dispatches;
pub mod gateway;
pub mod golive;
pub mod guild_actions;
pub mod guilds;
pub mod history;
pub mod http;
pub mod icons;
pub mod login;
pub mod members;
pub mod mentions;
pub mod messages;
pub mod people;
pub mod standing;
