//! Rubrix: prompt construction and response parsing for a multiple-choice
//! question generator, with every function verified against its contract.

pub mod assets;
pub mod auth;
pub mod brief;
pub mod config;
pub mod decode;
pub mod docx;
pub mod html;
pub mod json;
pub mod knowledge;
pub mod llm;
pub mod matching;
pub mod model;
pub mod parser;
pub mod prompts;
pub mod qti;
pub mod repair;
pub mod scan;
pub mod sse;
pub mod state;
pub mod table;
pub mod text;
