//! ScholarPress: Word document reading, document chunking, formatting-check
//! decisions and report assembly for dissertations, with their behaviour
//! stated and proved.

pub mod annotate;
pub mod calibration;
pub mod checkers;
pub mod cli;
pub mod config;
pub mod chunker;
pub mod content;
pub mod docx;
pub mod engine;
pub mod extract;
pub mod layout;
pub mod markup;
pub mod pattern;
pub mod report;
pub mod service;
pub mod template;
pub mod text;
pub mod toc_details;
pub mod toc_parity;
pub mod typography;
pub mod workspace;
