//! Action protocol engine for a conversational agent: it watches a model's
//! streamed output for protocol markers, extracts and repairs the fenced
//! action block, decodes it, plans its dispatch to the outside collaborators,
//! and decides after each outcome whether to reflect, retry or abort.
pub mod text;
pub mod extract;
pub mod json;
pub mod decode;
pub mod event;
pub mod dispatch;
pub mod retry;
pub mod scanner;
pub mod session;
