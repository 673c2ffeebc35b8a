//! Restructuring of LaTeX converted from a word-processor document into
//! articles: an ordered pipeline of text rewrites, a list restructurer, and
//! a splitter at classification markers.
pub mod articles;
pub mod latex_ext;
pub mod layout;
pub mod lists;
pub mod pattern;
pub mod pipeline;
pub mod project;
pub mod tags;
pub mod text;
