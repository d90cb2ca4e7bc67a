//! A stateless search-shortcut redirector: a short command string is turned
//! into the URL that the client is sent on to.
//!
//! * [`codec`] decodes a raw query string and encodes query parameters.
//! * [`command`] parses the decoded text into a [`command::Command`] and
//!   resolves a command to its destination.
//! * [`router`] dispatches a request, by its path, to a redirect, the static
//!   page or the search descriptor.
//! * [`outside`] holds the two calls into other crates, with what is taken
//!   on trust of them.
//! * [`text`] holds the facts about ASCII and UTF-8 that the rest uses.
pub mod codec;
pub mod command;
pub mod outside;
pub mod router;
pub mod text;
