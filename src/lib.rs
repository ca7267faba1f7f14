//! Turns an article given as typed paragraphs with inline markup spans into
//! one self-contained HTML document.
pub mod model;
pub mod html;
pub mod render;
pub mod nesting;
pub mod normalize;
pub mod document;
