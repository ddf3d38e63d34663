use vstd::prelude::*;
use crate::render::mesh_manager::MeshID;

verus! {

/// Marks an entity as drawn with the mesh `mesh_id`.
pub struct Renderable {
    pub mesh_id: MeshID,
}

impl Renderable {
    pub fn new(mesh_id: MeshID) -> (r: Self)
        ensures
            r.mesh_id == mesh_id,
    {
        Self { mesh_id }
    }
}

} // verus!
