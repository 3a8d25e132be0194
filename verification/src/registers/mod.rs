pub mod bef;
pub mod cell;
pub mod laws;
pub mod lpr2;
pub mod lpr3;
pub mod other;
pub mod rule;
pub mod schema;
pub mod values;
