pub mod backtrace;
pub mod bits;
pub mod cpu;
pub mod kprint;
pub mod machine_state;
pub mod timer;
pub mod version;
