//! A catalog of categorized links fed by commands carried in e-mail subject
//! lines, and the grouped reStructuredText document rendered from it.
pub mod catalog;
pub mod render;
pub mod command;
pub mod mail;
