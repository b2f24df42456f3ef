//! Turns the description of an assignment into the skeleton of a lab note:
//! a Markdown document with a title, an author line and the numbered
//! questions found in the description.

pub mod canvas;
pub mod dom;
pub mod error;
pub mod html;
pub mod list;
pub mod markdown;
pub mod numbering;
pub mod paths;
pub mod render;
pub mod report;
pub mod section;
pub mod text;
