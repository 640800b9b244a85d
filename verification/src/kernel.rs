//! Kernel factories: what the device needs to build one variant of a fused
//! kernel.

use vstd::prelude::*;
use std::sync::Arc;
use crate::sync::share;
use crate::trace::OperationSignature;

verus! {

/// The parallel work-group shape a kernel is launched with.
#[derive(Clone, Copy, Debug, PartialEq, Eq, Structural, Hash)]
pub struct LaunchConfiguration {
    pub x: u32,
    pub y: u32,
    pub z: u32,
}

/// What a kernel is compiled from: the structural signature of its trace.
#[derive(Debug)]
pub struct CompilingInfo {
    pub signature: Vec<OperationSignature>,
}

impl View for CompilingInfo {
    type V = Seq<OperationSignature>;

    open spec fn view(&self) -> Seq<OperationSignature> {
        self.signature@
    }
}

/// Mathematical value of an [`ElementWiseKernelFactory`].
pub struct KernelView {
    pub id: u64,
    pub signature: Seq<OperationSignature>,
    pub cube_dim: LaunchConfiguration,
}

/// Builds one variant of a fused elementwise kernel: a compiled-artifact
/// identity, the signature it is compiled from and its launch configuration.
pub struct ElementWiseKernelFactory {
    id: u64,
    info: Arc<CompilingInfo>,
    cube_dim: LaunchConfiguration,
}

impl View for ElementWiseKernelFactory {
    type V = KernelView;

    closed spec fn view(&self) -> KernelView {
        KernelView { id: self.id, signature: self.info@, cube_dim: self.cube_dim }
    }
}

impl ElementWiseKernelFactory {
    pub fn new(id: u64, info: Arc<CompilingInfo>, cube_dim: LaunchConfiguration) -> (factory: Self)
        ensures
            factory@ == (KernelView { id, signature: info@, cube_dim }),
    {
        ElementWiseKernelFactory { id, info, cube_dim }
    }

    /// Identity under which the device may keep the compiled artifact.
    pub fn id(&self) -> (id: u64)
        ensures
            id == self@.id,
    {
        self.id
    }

    /// The signature the kernel is compiled from.
    pub fn signature(&self) -> (signature: &Vec<OperationSignature>)
        ensures
            signature@ == self@.signature,
    {
        &self.info.signature
    }

    /// The work-group shape the kernel is launched with.
    pub fn cube_dim(&self) -> (cube_dim: LaunchConfiguration)
        ensures
            cube_dim == self@.cube_dim,
    {
        self.cube_dim
    }

    /// A second factory for the same compiled artifact.
    pub fn duplicate(&self) -> (copy: Self)
        ensures
            copy@ == self@,
    {
        ElementWiseKernelFactory {
            id: self.id,
            info: share(&self.info),
            cube_dim: self.cube_dim,
        }
    }
}

/// `CubeDim::default()` of cubecl: the work-group shape that crate picks when
/// none is asked for, 16 by 16 by 1.
#[verifier::external_body]
pub(crate) fn default_cube_dim() -> (dim: LaunchConfiguration)
    ensures
        dim.x == 16,
        dim.y == 16,
        dim.z == 1,
{
    let dim = cubecl::ir::CubeDim::default();
    LaunchConfiguration { x: dim.x, y: dim.y, z: dim.z }
}

/// `CubeDim::new` of cubecl: the work-group shape with exactly the extents
/// given.
#[verifier::external_body]
pub(crate) fn fixed_cube_dim(x: u32, y: u32, z: u32) -> (dim: LaunchConfiguration)
    ensures
        dim.x == x,
        dim.y == y,
        dim.z == z,
{
    let dim = cubecl::ir::CubeDim::new(x, y, z);
    LaunchConfiguration { x: dim.x, y: dim.y, z: dim.z }
}

/// `IdGenerator::generate()` of burn-common: a random 64-bit identity.
/// Nothing is claimed of its value.
#[verifier::external_body]
pub(crate) fn generate_id() -> (id: u64) {
    burn_common::id::IdGenerator::generate()
}

} // verus!
