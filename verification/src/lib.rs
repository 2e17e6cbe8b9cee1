//! The command-routing core of an AI-augmented terminal.
//!
//! A line of the user is routed ([`router`]): it switches the model, spawns
//! a shell, goes to a plugin ([`plugin`]), is explained, or is translated
//! into a shell command by a model ([`llm`], [`wire`]). A translated command
//! is scanned for danger ([`safety`]) before it runs; what it prints is cut
//! into blocks ([`terminal`], [`ansi`]), and the blocks enter a bounded
//! history ([`context`]).
//!
//! The library decides and computes. It opens no socket, no file and no
//! terminal: where a decision needs the outside, its caller brings the
//! answer.

pub mod ansi;
pub mod context;
pub mod error;
pub mod llm;
pub mod plugin;
pub mod router;
pub mod safety;
pub mod terminal;
pub mod text;
pub mod wire;
