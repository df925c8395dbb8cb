pub mod audit_utils;
pub mod auditor;
pub mod laws;
pub mod tree;
pub mod wcag;
