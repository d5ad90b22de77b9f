//! The verified core of the luai orchestrator, which asks a language model
//! for Lua programs, runs them on the luai VM and retries with the model
//! when they fail.
//!
//! - `llm`: the request sent to the model, the reading of its reply, and
//!   the clean-up of the program it wrote.
//! - `prompt`: the system prompt describing the Lua subset and the tools.
//! - `retry`: the decisions of the generate, compile and run loop.
//! - `pipeline`: error texts, the retry context and the execution report.
//! - `tools`: the stub and prover tool hosts and the stub tools' descriptions.
//! - `lua`: the Lua strings, keys, values and tables tools exchange.
//! - `source`: looking up a line of a program's source.
//! - `proofs`: the checker of zkVM proofs.
//! - `text`: character-level string helpers.
pub mod text;
pub mod lua;
pub mod llm;
pub mod prompt;
pub mod pipeline;
pub mod tools;
pub mod source;
pub mod retry;
pub mod proofs;
