//! The providers.

pub mod genai;
pub mod openai;
