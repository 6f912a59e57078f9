pub mod gemini;
pub mod adapter;
