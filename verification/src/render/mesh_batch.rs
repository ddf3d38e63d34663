//! The per-mesh draw batch.

use vstd::prelude::*;

verus! {

/// What the renderer needs to draw one mesh: the number of indices, the
/// instances submitted for the coming frame, and the GPU objects `B`.
pub struct MeshBatch<I, B> {
    pub index_count: i32,
    pub instances: Vec<I>,
    pub bindings: B,
}

pub struct MeshBatchView<I, B> {
    pub index_count: i32,
    pub instances: Seq<I>,
    pub bindings: B,
}

impl<I, B> View for MeshBatch<I, B> {
    type V = MeshBatchView<I, B>;

    open spec fn view(&self) -> MeshBatchView<I, B> {
        MeshBatchView {
            index_count: self.index_count,
            instances: self.instances@,
            bindings: self.bindings,
        }
    }
}

} // verus!
