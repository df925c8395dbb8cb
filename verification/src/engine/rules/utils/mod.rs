pub mod nodes;
