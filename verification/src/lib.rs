//! Verified core of the boot-entry and snapshot file logic of a systemd-boot
//! maintenance tool: where bootloader binaries live inside a snapshot, which
//! bootloader is installed, how its version is read from the binary, how the
//! root snapshot is identified from its subvolume path, and how rollback items
//! are cleaned up. All file-system effects are described over an in-memory
//! model of the relevant files (`FsView`); the surrounding program performs the
//! actual I/O.

pub mod number;
pub mod text;
pub mod version;
pub mod path;
pub mod fsview;
pub mod rollback;
pub mod boot;
pub mod snapshot;
