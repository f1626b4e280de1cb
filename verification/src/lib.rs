//! Orchestration of several coding-agent runs on one task, each held to a
//! strategy of its own: the strategy model, the prompts, the phases of a run,
//! the review of the collected strategies and the rendering of their text.

pub mod chat;
pub mod conductor;
pub mod editor;
pub mod emphasis;
pub mod lines;
pub mod markdown;
pub mod number;
pub mod outcome;
pub mod output;
pub mod path;
pub mod prompt;
pub mod record;
pub mod reflow;
pub mod review;
pub mod run;
pub mod screen;
pub mod search;
pub mod session;
pub mod strategy;
pub mod styled;
pub mod text;
pub mod workspace;
