//! Formatting-code conversion for server status strings: plain text, HTML and
//! chat-component trees, with the settings and messages around them.
pub mod codes;
pub mod text;
pub mod markup;
pub mod json;
pub mod settings;
pub mod helper;
pub mod laws;
pub mod discord;
