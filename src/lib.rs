//! A chat bot core: a FIFO message queue shared by tasks, an IRC-style line
//! protocol client driven as a state machine, and voice selection for speech.
pub mod queue;
pub mod text;
pub mod irc;
pub mod client;
pub mod identity;
pub mod tts;
pub mod config;
