//! Typed provider and model catalog: each provider names its models and the
//! identifier each model is requested under.
pub mod base;
pub mod groq;
pub mod openrouter;
pub mod sambanova;
