//! Replay reader: a replay directory opened through its manifest.

use vstd::prelude::*;

use crate::replay::schema::{check_contracts_spec, recorded_versions_current, ContractError, Manifest};

verus! {

/// Reads a replay directory.
pub struct ReplayReader {
    dir: String,
    manifest: Manifest,
}

impl ReplayReader {
    /// The replay directory.
    pub closed spec fn dir_spec(&self) -> Seq<char> {
        self.dir@
    }

    /// The manifest the reader was opened with.
    pub closed spec fn manifest_spec(&self) -> Manifest {
        self.manifest
    }

    /// Open a replay from its decoded manifest; refused when the manifest's
    /// header does not match the current contracts.
    pub fn from_manifest(dir: String, manifest: Manifest) -> (r: Result<Self, ContractError>)
        ensures
            check_contracts_spec(manifest.header) is Err ==> r is Err && r->Err_0
                == check_contracts_spec(manifest.header)->Err_0,
            check_contracts_spec(manifest.header) is Ok ==> r is Ok && r->Ok_0.dir_spec() == dir@
                && r->Ok_0.manifest_spec() == manifest,
            r is Ok <==> recorded_versions_current(manifest.header),
    {
        match manifest.header.check_contracts() {
            Err(e) => Err(e),
            Ok(()) => Ok(ReplayReader { dir, manifest }),
        }
    }

    /// The manifest.
    pub fn manifest(&self) -> (r: &Manifest)
        ensures
            *r == self.manifest_spec(),
    {
        &self.manifest
    }

    /// The replay directory.
    pub fn dir(&self) -> (r: &String)
        ensures
            r@ == self.dir_spec(),
    {
        &self.dir
    }
}

} // verus!
