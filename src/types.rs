use vstd::prelude::*;

verus! {

/// Virtual Cluster Number: an offset in clusters within the logical stream of one attribute.
#[derive(Clone, Copy, Debug, PartialEq, Eq, Structural)]
pub struct Vcn(pub i64);

/// Logical Cluster Number: an absolute cluster offset on the volume.
#[derive(Clone, Copy, Debug, PartialEq, Eq, Structural)]
pub struct Lcn(pub u64);

} // verus!
