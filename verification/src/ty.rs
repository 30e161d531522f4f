pub mod fields;
pub mod path;
pub mod sum;
