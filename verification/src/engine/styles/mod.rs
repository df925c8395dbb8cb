pub mod cascade;
pub mod declaration_block;
pub mod errors;
pub mod layout;
pub mod rules;
pub mod scan;
pub mod specificity;
pub mod style_set;
pub mod values;
