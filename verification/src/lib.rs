pub mod color;
pub mod json;
pub mod render;
pub mod textfmt;
pub mod tree;
pub mod units;
