pub mod field;
pub mod system;
pub mod cubic;
pub mod product;
pub mod native;
pub mod gadget;
