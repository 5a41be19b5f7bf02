//! The conversational pipeline between a player and the characters that a
//! language model speaks for: holdings and their transfer, the conversation
//! that is sent along, the wire formats of requests and replies, and the
//! registry of exchanges that are under way.

/// The legacy reply dialect of bracketed commands.
pub mod bracket;
/// Cutting a long message into the pieces that are shown in turn.
pub mod bubble;
/// Players, characters and what both can do.
pub mod character;
/// Encoding of outgoing payloads and decoding of replies.
pub mod codec;
/// Messages, requests and responses of the chat backend.
pub mod communication;
/// The steps of one exchange with the backend, around the transport.
pub mod exchange;
/// Applying the actions of an interaction to two actors.
pub mod executor;
/// The line that the player types, and the movement keys.
pub mod input;
/// Interactions, their actions and their JSON shape.
pub mod interaction;
/// Goods and the catalog of them.
pub mod item;
/// JSON documents as trees, read and written by `serde_json`.
pub mod json;
/// Per-actor holdings.
pub mod ledger;
/// The bodies that go to and come from the chat endpoint.
pub mod llm;
/// The requests that are under way, one per pair of actors.
pub mod registry;
/// A character's conversation and the message that primes it.
pub mod talk;
/// Scanning, searching and ordering of text.
pub mod text;
