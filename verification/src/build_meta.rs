use vstd::prelude::*;

verus! {

/// Name and version of the workspace package that reports itself.
#[derive(Debug, Clone, Copy, PartialEq, Eq)]
pub struct WorkspaceMetadata {
    pub package_name: &'static str,
    pub package_version: &'static str,
}

/// The metadata of the `weft-build-meta` package.
pub fn current() -> (m: WorkspaceMetadata)
    ensures
        m.package_name@ == "weft-build-meta"@,
        m.package_version@ == "0.1.0"@,
{
    WorkspaceMetadata { package_name: "weft-build-meta", package_version: "0.1.0" }
}

} // verus!
