//! A gateway in front of the Responses interface: it takes requests in OpenAI's chat completions
//! format and in Anthropic's messages format, sends them on as Responses requests, turns what comes
//! back into chat completions, and chooses the account that a request goes out with.
//!
//! - [`protocol_adapter`] decides which requests are rewritten; [`openai_request`] and
//!   [`anthropic_request`] rewrite them, out of the pieces in [`items`].
//! - [`chat_completion`] makes a completion of an answer, [`response_stream`] puts a stream of events
//!   together again into one answer, and [`chat_sse`] sends a completion as JSON or in chunks.
//! - [`selection`] finds the accounts that can serve a request, [`expiry_order`] brings them into the
//!   order of their limits, and [`candidate_cache`] keeps them for a while.
//! - [`json`], [`text`] and [`sequence`] are what the rest is built from; [`codec`] and [`clock`] are
//!   where `serde_json` and the system's clock are called.
//! - [`request_laws`], [`response_laws`] and [`stream_laws`] state what holds of every request, every
//!   answer and every stream. [`chat_laws`], [`messages_laws`], [`answer_laws`], [`chunk_laws`] and
//!   [`event_laws`] state what becomes of each thing that they bring, [`gateway_laws`] where a request
//!   goes, [`account_laws`] which account it goes out with, and [`text_laws`] what the operations on
//!   text do. [`words`] is what these are written with.

pub mod account_laws;
pub mod accounts;
pub mod answer_laws;
pub mod anthropic_request;
pub mod candidate_cache;
pub mod chat_completion;
pub mod chat_laws;
pub mod chat_sse;
pub mod chunk_laws;
pub mod clock;
pub mod codec;
pub mod event_laws;
pub mod expiry_order;
pub mod gateway_laws;
pub mod items;
pub mod json;
pub mod messages_laws;
pub mod openai_request;
pub mod protocol_adapter;
pub mod request_laws;
pub mod response_laws;
pub mod response_stream;
pub mod selection;
pub mod sequence;
pub mod stream_laws;
pub mod text;
pub mod text_laws;
pub mod words;
