//! A container runtime library: container creation and init logic.
//!
//! The crate covers the creator/init handshake protocol, the namespace
//! flag mapping, the chroot-safe path resolution, and the mount and
//! device configuration engines that populate a container's root
//! filesystem.  Privileged OS work (mounts, clones, pipes) is driven by
//! a thin unverified shell; every decision that work depends on is made
//! here, with a contract.

pub mod config;
pub mod container;
pub mod create;
pub mod devices;
pub mod flags;
pub mod hermit;
pub mod init;
pub mod logging;
pub mod mounts;
pub mod network;
pub mod numfmt;
pub mod oci;
pub mod paths;
pub mod protocol;
pub mod rootfs;
pub mod state;

use vstd::prelude::*;

verus! {

/// The byte written on the exec gate when the container may run.
pub const FIFO_RELEASE_BYTE: u8 = 0;

/// A released exec gate carries the release byte and nothing else.
pub fn fifo_byte_ok(b: u8) -> (r: bool)
    ensures
        r == (b == FIFO_RELEASE_BYTE),
{
    b == FIFO_RELEASE_BYTE
}

} // verus!
