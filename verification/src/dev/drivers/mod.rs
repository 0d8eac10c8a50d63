pub mod qemu;
