//! tinyboot: the boot-selection engine of a boot manager that runs in an
//! initial RAM disk.
//!
//! The library finds out what a block device holds, reads the configuration
//! of the boot loaders GRUB and syslinux, chooses the entry to boot from the
//! devices that arrive, the requests of clients and the ticks of a clock,
//! and says what is to be loaded into the kernel. It performs no input and
//! no output itself: where the system is needed, it says what it asks for
//! and takes the answer as an argument.

pub mod args;
pub mod assoc;
pub mod bootloader;
pub mod commands;
pub mod coordinator;
pub mod device;
pub mod envblock;
pub mod environment;
pub mod error;
pub mod evaluator;
pub mod install;
pub mod klog;
pub mod lexer;
pub mod machine;
pub mod menu;
pub mod message;
pub mod mountinfo;
pub mod predicate;
pub mod probe;
pub mod prompt;
pub mod script;
pub mod session;
pub mod supervisor;
pub mod syslinux;
pub mod text;
