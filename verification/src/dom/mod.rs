pub mod document;
pub mod html;
pub mod selector;
