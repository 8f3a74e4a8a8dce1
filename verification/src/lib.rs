//! Diagnosis of a silent Linux audio setup: the inspected tools' text output
//! is parsed into facts, judged by six independent checks and gathered into
//! one report.

pub mod checks;
pub mod output;
pub mod parser;
pub mod printing;
pub mod report;
pub mod runner;
pub mod text;
pub mod text_lemmas;
pub mod types;
