pub mod drivers;
pub mod gpu;
pub mod helpers;
pub mod pci;
pub mod platform;
