pub mod contrast;
pub mod ids;
pub mod rule;
pub mod techniques;
pub mod utils;
pub mod wcag_base;
pub mod wcag_rule_map;
