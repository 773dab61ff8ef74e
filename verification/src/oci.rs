//! The container specification, as plain data.
//!
//! The runtime reads one immutable specification per container: the
//! process to run, the root filesystem, the mounts, the namespaces and
//! devices, and the lifecycle hooks.  The unverified shell deserializes
//! the on-disk JSON form and hands it over as these values.

use vstd::prelude::*;

use crate::flags::LinuxNamespace;

verus! {

/// The user identity the container process assumes.
pub struct User {
    pub uid: u32,
    pub gid: u32,
}

/// A requested console size in character cells.
pub struct ConsoleSize {
    pub height: u64,
    pub width: u64,
}

/// The process descriptor: command, environment, working directory,
/// identity and hardening flags.
pub struct Process {
    pub args: Option<Vec<String>>,
    pub env: Option<Vec<String>>,
    pub cwd: String,
    pub user: User,
    pub terminal: Option<bool>,
    pub no_new_privileges: Option<bool>,
    pub console_size: Option<ConsoleSize>,
}

/// The root filesystem descriptor.
pub struct Root {
    pub path: String,
    pub readonly: Option<bool>,
}

/// One mount descriptor: destination relative to the container root,
/// filesystem type, source, and option strings.
pub struct Mount {
    pub destination: String,
    pub typ: Option<String>,
    pub source: Option<String>,
    pub options: Option<Vec<String>>,
}

/// The kind of a device node.
#[derive(Copy, Clone, Debug, PartialEq, Eq, Structural)]
pub enum DeviceType {
    /// Character device.
    C,
    /// Block device.
    B,
    /// Unbuffered character device.
    U,
    /// FIFO.
    P,
    /// All: not supported.
    A,
}

/// One device node to create inside the container.
pub struct LinuxDevice {
    pub path: String,
    pub typ: DeviceType,
    pub major: i64,
    pub minor: i64,
    pub file_mode: Option<u32>,
    pub uid: Option<u32>,
    pub gid: Option<u32>,
}

/// The mathematical form of a device entry.
pub struct DeviceModel {
    pub path: Seq<char>,
    pub typ: DeviceType,
    pub major: i64,
    pub minor: i64,
    pub file_mode: Option<u32>,
    pub uid: Option<u32>,
    pub gid: Option<u32>,
}

impl DeepView for LinuxDevice {
    type V = DeviceModel;

    open spec fn deep_view(&self) -> DeviceModel {
        DeviceModel {
            path: self.path@,
            typ: self.typ,
            major: self.major,
            minor: self.minor,
            file_mode: self.file_mode,
            uid: self.uid,
            gid: self.gid,
        }
    }
}

impl Clone for LinuxDevice {
    fn clone(&self) -> (r: Self)
        ensures
            r.deep_view() == self.deep_view(),
    {
        LinuxDevice {
            path: self.path.clone(),
            typ: self.typ,
            major: self.major,
            minor: self.minor,
            file_mode: self.file_mode,
            uid: self.uid,
            gid: self.gid,
        }
    }
}

/// The Linux-specific part of the specification.
pub struct Linux {
    pub namespaces: Option<Vec<LinuxNamespace>>,
    pub devices: Option<Vec<LinuxDevice>>,
    pub sysctl: Option<Vec<(String, String)>>,
    pub rootfs_propagation: Option<String>,
    pub mount_label: Option<String>,
}

/// One lifecycle hook: an executable with arguments and environment.
pub struct Hook {
    pub path: String,
    pub args: Option<Vec<String>>,
    pub env: Option<Vec<String>>,
    pub timeout: Option<i64>,
}

/// The lifecycle hooks the runtime runs.
pub struct Hooks {
    pub prestart: Option<Vec<Hook>>,
}

/// The whole container specification.
pub struct ContainerSpec {
    pub process: Option<Process>,
    pub root: Option<Root>,
    pub mounts: Option<Vec<Mount>>,
    pub hostname: Option<String>,
    pub linux: Option<Linux>,
    pub hooks: Option<Hooks>,
    pub annotations: Option<Vec<(String, String)>>,
}

} // verus!
