pub mod error;
pub mod memory;
pub mod architecture;
pub mod il;
