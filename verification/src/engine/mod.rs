pub mod audit;
pub mod issue;
pub mod rules;
pub mod styles;
