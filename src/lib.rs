//! Terminal application engine for requesting, browsing and reading long-form
//! text artifacts (transcripts and reports): identifier validation, artifact
//! naming, the markdown layout engine, scroll windows, the screen state
//! machine and the background job pipeline.
pub mod text;
pub mod ident;
pub mod layout;
pub mod table;
pub mod markdown;
pub mod keys;
pub mod scroll;
pub mod storage;
pub mod report;
pub mod transcript;
pub mod input;
pub mod progress;
pub mod viewer;
pub mod pipeline;
pub mod app;
pub mod cli;
