//! Shader programs: the handle the resource store keeps for a linked
//! GPU program, and the rule that turns the status flags reported by
//! the native compile and link steps into an explicit outcome instead
//! of a silently unlinked program.

use vstd::prelude::*;

verus! {

/// A linked GPU program, by its native handle. Zero stands for "no
/// program": the native API never hands out zero for a linked program.
#[derive(Clone, Copy, Debug, PartialEq, Eq, Structural)]
pub struct Shader {
    pub id: u32,
}

impl Shader {
    pub fn new() -> (s: Shader)
        ensures
            s.id == 0,
    {
        Shader { id: 0 }
    }
}

/// The stages whose status a shader build reports, in the order they
/// are checked: the two (or three) compilations, then the link of the
/// whole program.
#[derive(Clone, Copy, Debug, PartialEq, Eq, Structural)]
pub enum ShaderStage {
    Vertex,
    Fragment,
    Geometry,
    Program,
}

/// Judges a shader build from the status flags the native compile and
/// link calls reported: `Ok` exactly when every stage succeeded, and
/// otherwise the first stage, in check order, that failed.
/// `geometry_ok` is `None` when no geometry shader was part of the
/// build.
pub fn compile_outcome(
    vertex_ok: bool,
    fragment_ok: bool,
    geometry_ok: Option<bool>,
    link_ok: bool,
) -> (r: Result<(), ShaderStage>)
    ensures
        r is Ok <==> vertex_ok && fragment_ok && (geometry_ok matches Some(g) ==> g) && link_ok,
        !vertex_ok ==> r == Result::<(), ShaderStage>::Err(ShaderStage::Vertex),
        vertex_ok && !fragment_ok ==> r == Result::<(), ShaderStage>::Err(ShaderStage::Fragment),
        vertex_ok && fragment_ok && geometry_ok == Some(false) ==> r == Result::<
            (),
            ShaderStage,
        >::Err(ShaderStage::Geometry),
        vertex_ok && fragment_ok && (geometry_ok matches Some(g) ==> g) && !link_ok ==> r
            == Result::<(), ShaderStage>::Err(ShaderStage::Program),
{
    if !vertex_ok {
        Err(ShaderStage::Vertex)
    } else if !fragment_ok {
        Err(ShaderStage::Fragment)
    } else if matches!(geometry_ok, Some(false)) {
        Err(ShaderStage::Geometry)
    } else if !link_ok {
        Err(ShaderStage::Program)
    } else {
        Ok(())
    }
}

} // verus!
