//! The on-disk container record.

use vstd::prelude::*;

use crate::oci::ContainerSpec;

verus! {

/// A created container as persisted in its state directory: its id,
/// the canonical bundle path, the pidfile path and the specification
/// it was created from.
pub struct OCIContainer {
    pub id: String,
    pub bundle: String,
    pub pidfile: String,
    pub spec: ContainerSpec,
}

impl OCIContainer {
    /// Assemble the record from its already-canonicalized parts.
    pub fn new(bundle: String, id: String, pidfile: String, spec: ContainerSpec) -> (r: Self)
        ensures
            r.bundle@ == bundle@,
            r.id@ == id@,
            r.pidfile@ == pidfile@,
    {
        OCIContainer { id, bundle, pidfile, spec }
    }

    /// The container's unique identifier.
    pub fn id(&self) -> (r: &String)
        ensures
            r@ == self.id@,
    {
        &self.id
    }

    /// The canonical bundle directory.
    pub fn bundle(&self) -> (r: &String)
        ensures
            r@ == self.bundle@,
    {
        &self.bundle
    }

    /// The pidfile path.
    pub fn pidfile(&self) -> (r: &String)
        ensures
            r@ == self.pidfile@,
    {
        &self.pidfile
    }

    /// The specification the container was created from.
    pub fn spec(&self) -> (r: &ContainerSpec)
        ensures
            r == &self.spec,
    {
        &self.spec
    }
}

impl PartialEq for OCIContainer {
    /// Containers are the same container exactly when their ids match.
    fn eq(&self, other: &Self) -> (r: bool) {
        self.id == other.id
    }
}

impl vstd::std_specs::cmp::PartialEqSpecImpl for OCIContainer {
    open spec fn obeys_eq_spec() -> bool {
        true
    }

    open spec fn eq_spec(&self, other: &Self) -> bool {
        self.id@ == other.id@
    }
}

} // verus!
