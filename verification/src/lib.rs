//! Core logic of a terminal chat assistant: a directory-tree renderer for
//! context-aware system prompts, a fenced-code-block extractor for model
//! replies, the request/response handling of the completion client, and the
//! key-event state machine of the multiline input loop.

pub mod codeblocks;
pub mod directory;
pub mod input;
pub mod openai;
pub mod prompt;
pub mod session;
pub mod text;

pub use openai::OpenAIAgent;
pub use session::get_available_models;
pub use session::select_model;
pub use session::AIModel;
