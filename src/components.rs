//! Component values that entities carry, and the values the frame systems hand out.
use vstd::prelude::*;

verus! {

/// A linked shader program, known by its GPU program handle.
#[derive(Clone, Copy, Debug, PartialEq, Eq)]
pub struct Shader {
    pub id: u32,
}

/// A texture object, known by its GPU handle.
#[derive(Clone, Copy, Debug, PartialEq, Eq)]
pub struct Texture {
    pub id: u32,
}

/// Marks an entity as drawn with the given physically based shading program.
#[derive(Clone, Copy, Debug, PartialEq, Eq)]
pub struct PBRShader(pub Shader);

/// The projection of a camera entity; its placement comes from the entity's
/// world transform.
#[derive(Clone, Copy, Debug)]
pub struct Camera<T> {
    pub projection: T,
}

/// The frame-wide record of the active camera, rewritten once per frame from
/// the one camera entity. `T` is the matrix type, `P` the point type.
#[derive(Clone, Copy, Debug)]
pub struct ActiveCameraData<T, P> {
    pub pos: P,
    pub view: T,
    pub projection: T,
}

/// Vertex and index data of a triangle list, together with the GPU buffers
/// that were filled from it.
#[derive(Clone, Debug)]
pub struct Mesh<V> {
    pub vertices: Vec<V>,
    pub indices: Vec<u32>,
    pub vao: u32,
    pub vbo: u32,
    pub ebo: u32,
}

/// What an entity keeps of a mesh: a reference to the GPU vertex array and
/// the number of indices to draw. The mesh itself stays with its single owner.
#[derive(Clone, Copy, Debug, PartialEq, Eq)]
pub struct MeshHandle {
    pub vao: u32,
    pub index_count: usize,
}

/// One draw: the model matrix of an entity with the mesh, texture and shader
/// attached to it.
#[derive(Clone, Copy, Debug)]
pub struct RenderItem<T> {
    pub entity: usize,
    pub model: T,
    pub mesh: MeshHandle,
    pub texture: Option<Texture>,
    pub shader: Shader,
}

impl<V> Mesh<V> {
    /// The handle under which an entity refers to this mesh.
    pub fn handle(&self) -> (r: MeshHandle)
        ensures
            r.vao == self.vao,
            r.index_count == self.indices@.len(),
    {
        MeshHandle { vao: self.vao, index_count: self.indices.len() }
    }
}

} // verus!
