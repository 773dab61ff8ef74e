//! Orchestrator-side values: the container directory layout and the
//! pidfile contents.  The handshake itself lives in
//! [`crate::protocol`]; the orchestrator drives it from outside,
//! feeding every byte it reads through the checked state machine.

use vstd::prelude::*;

use crate::numfmt::u64_dec;

verus! {

/// The files of a container's state directory.
pub struct ContainerPaths {
    /// The serialized container record.
    pub container_json: String,
    /// The symlink to the bundle directory.
    pub bundle_link: String,
    /// The exec gate.
    pub exec_fifo: String,
    /// The PID marker written at the pre-start checkpoint.
    pub created_marker: String,
}

/// The fixed layout of a container's state directory.
pub fn container_paths(container_dir: &str) -> (r: ContainerPaths)
    ensures
        r.container_json@ == container_dir@ + "/container.json"@,
        r.bundle_link@ == container_dir@ + "/bundle"@,
        r.exec_fifo@ == container_dir@ + "/exec.fifo"@,
        r.created_marker@ == container_dir@ + "/created"@,
{
    let mut container_json = container_dir.to_owned();
    container_json.append("/container.json");
    let mut bundle_link = container_dir.to_owned();
    bundle_link.append("/bundle");
    let mut exec_fifo = container_dir.to_owned();
    exec_fifo.append("/exec.fifo");
    let mut created_marker = container_dir.to_owned();
    created_marker.append("/created");
    ContainerPaths { container_json, bundle_link, exec_fifo, created_marker }
}

/// The specification file inside a bundle.
pub fn bundle_config_path(bundle: &str) -> (r: String)
    ensures
        r@ == bundle@ + "/config.json"@,
{
    let mut p = bundle.to_owned();
    p.append("/config.json");
    p
}

/// The default pidfile inside the container directory, used when the
/// caller names none.
pub fn default_pidfile_path(container_dir: &str) -> (r: String)
    ensures
        r@ == container_dir@ + "/containerpid"@,
{
    let mut p = container_dir.to_owned();
    p.append("/containerpid");
    p
}

/// The decimal rendering of a process id, negative ids with a sign.
pub open spec fn spec_pid_string(pid: i32) -> Seq<char> {
    if pid >= 0 {
        u64_dec(pid as u64)
    } else {
        seq!['-'] + u64_dec((-(pid as int)) as u64)
    }
}

/// Render a process id for the pidfile and the state marker.
pub fn pid_string(pid: i32) -> (r: String)
    ensures
        r@ == spec_pid_string(pid),
{
    if pid >= 0 {
        crate::numfmt::u64_to_string(pid as u64)
    } else {
        proof {
            reveal_strlit("-");
            assert("-"@ =~= seq!['-']);
        }
        let pid64: i64 = pid as i64;
        let mag: u64 = (-pid64) as u64;
        let mut s = String::from_str("-");
        let digits = crate::numfmt::u64_to_string(mag);
        s.append(digits.as_str());
        s
    }
}

} // verus!
