//! Registry of meshes and of the instances submitted for each.

use vstd::prelude::*;
use vstd::string::StringExecFns;
use crate::render::mesh_batch::{MeshBatch, MeshBatchView};

verus! {

/// Handle of a registered mesh. Valid handles start at 1.
#[derive(Copy, Clone, Hash, Eq, PartialEq, Debug, Structural)]
pub struct MeshID(pub usize);

impl MeshID {
    /// The handle that names no mesh.
    pub fn invalid() -> (id: MeshID)
        ensures
            id == MeshID(0),
    {
        MeshID(0)
    }
}

/// Largest number of instances one mesh batch takes per frame.
pub const MAX_INSTANCES: usize = 10_000;

struct MeshEntry<I, B> {
    path: String,
    batch: MeshBatch<I, B>,
}

/// One registered mesh: the path it was registered under and its batch.
pub struct MeshEntryView<I, B> {
    pub path: Seq<char>,
    pub batch: MeshBatchView<I, B>,
}

impl<I, B> View for MeshEntry<I, B> {
    type V = MeshEntryView<I, B>;

    closed spec fn view(&self) -> MeshEntryView<I, B> {
        MeshEntryView { path: self.path@, batch: self.batch@ }
    }
}

/// What became of a submitted instance.
#[derive(Clone, Copy, Debug, PartialEq, Eq, Structural)]
pub enum Submission {
    /// The instance joined the batch.
    Accepted,
    /// The batch already holds `MAX_INSTANCES` instances; the instance was dropped.
    BatchFull,
    /// No mesh has this handle; the instance was dropped.
    UnknownMesh,
}

/// The meshes registered so far, in order of registration. The mesh with
/// handle `MeshID(k)` is entry `k - 1`.
pub struct MeshManager<I, B> {
    entries: Vec<MeshEntry<I, B>>,
}

/// The handle under which `path` was registered last, or `MeshID(0)`.
pub open spec fn lookup<I, B>(entries: Seq<MeshEntryView<I, B>>, path: Seq<char>) -> MeshID
    decreases entries.len(),
{
    if entries.len() == 0 {
        MeshID(0)
    } else if entries.last().path == path {
        MeshID(entries.len() as usize)
    } else {
        lookup(entries.drop_last(), path)
    }
}

/// `entry` with its instances gone.
pub open spec fn cleared<I, B>(entry: MeshEntryView<I, B>) -> MeshEntryView<I, B> {
    MeshEntryView {
        path: entry.path,
        batch: MeshBatchView {
            index_count: entry.batch.index_count,
            instances: Seq::empty(),
            bindings: entry.batch.bindings,
        },
    }
}

/// `entry` with `instance` added at the end of its batch.
pub open spec fn with_instance<I, B>(entry: MeshEntryView<I, B>, instance: I) -> MeshEntryView<
    I,
    B,
> {
    MeshEntryView {
        path: entry.path,
        batch: MeshBatchView {
            index_count: entry.batch.index_count,
            instances: entry.batch.instances.push(instance),
            bindings: entry.batch.bindings,
        },
    }
}

impl<I, B> View for MeshManager<I, B> {
    type V = Seq<MeshEntryView<I, B>>;

    closed spec fn view(&self) -> Seq<MeshEntryView<I, B>> {
        self.entries@.map_values(|e: MeshEntry<I, B>| e@)
    }
}

impl<I, B> MeshManager<I, B> {
    pub fn new() -> (manager: Self)
        ensures
            manager@ == Seq::<MeshEntryView<I, B>>::empty(),
    {
        let manager = Self { entries: Vec::new() };
        assert(manager@ =~= Seq::empty());
        manager
    }

    /// Number of meshes registered.
    pub fn mesh_count(&self) -> (n: usize)
        ensures
            n == self@.len(),
    {
        self.entries.len()
    }

    /// Registers a mesh under `filepath` and hands out the next handle. The
    /// new batch starts without instances.
    pub fn register_mesh(&mut self, filepath: &str, index_count: i32, bindings: B) -> (id: MeshID)
        requires
            old(self)@.len() < usize::MAX,
        ensures
            id == MeshID((old(self)@.len() + 1) as usize),
            final(self)@ == old(self)@.push(
                MeshEntryView {
                    path: filepath@,
                    batch: MeshBatchView { index_count, instances: Seq::empty(), bindings },
                },
            ),
    {
        let entry = MeshEntry {
            path: String::from_str(filepath),
            batch: MeshBatch { index_count, instances: Vec::new(), bindings },
        };
        proof {
            assert(self.entries@.push(entry).map_values(|e: MeshEntry<I, B>| e@) =~= self@.push(
                entry@,
            ));
        }
        self.entries.push(entry);
        MeshID(self.entries.len())
    }

    /// Adds `instance` to the batch of `mesh_id`, unless there is no such
    /// mesh or its batch is full.
    pub fn submit_mesh_instance(&mut self, instance: I, mesh_id: MeshID) -> (outcome: Submission)
        ensures
            outcome == if !(1 <= mesh_id.0 <= old(self)@.len()) {
                Submission::UnknownMesh
            } else if old(self)@[mesh_id.0 - 1].batch.instances.len() >= MAX_INSTANCES {
                Submission::BatchFull
            } else {
                Submission::Accepted
            },
            outcome == Submission::Accepted ==> final(self)@ == old(self)@.update(
                mesh_id.0 - 1,
                with_instance(old(self)@[mesh_id.0 - 1], instance),
            ),
            outcome != Submission::Accepted ==> final(self)@ == old(self)@,
    {
        if mesh_id.0 == 0 || mesh_id.0 > self.entries.len() {
            return Submission::UnknownMesh;
        }
        let k = mesh_id.0 - 1;
        if self.entries[k].batch.instances.len() >= MAX_INSTANCES {
            return Submission::BatchFull;
        }
        self.entries[k].batch.instances.push(instance);
        proof {
            assert(self@ =~= old(self)@.update(k as int, with_instance(old(self)@[k as int], instance)));
        }
        Submission::Accepted
    }

    /// Empties every batch for the next frame.
    pub fn clear_instance_buffer(&mut self)
        ensures
            final(self)@ == old(self)@.map_values(|e: MeshEntryView<I, B>| cleared(e)),
    {
        let mut k: usize = 0;
        while k < self.entries.len()
            invariant
                0 <= k <= self.entries.len(),
                self.entries.len() == old(self).entries.len(),
                forall|j: int| 0 <= j < k ==> (#[trigger] self@[j]) == cleared(old(self)@[j]),
                forall|j: int| k <= j < self.entries.len() ==> (#[trigger] self@[j]) == old(self)@[j],
            decreases self.entries.len() - k,
        {
            let ghost before = self@;
            proof {
                assert(before[k as int] == old(self)@[k as int]);
            }
            self.entries[k].batch.instances.clear();
            proof {
                assert(self.entries@[k as int].batch.instances@ =~= Seq::empty());
                assert(self@[k as int] == cleared(before[k as int]));
                assert forall|j: int| 0 <= j < self.entries.len() && j != k implies #[trigger] self@[j]
                    == before[j] by {}
            }
            k += 1;
        }
        proof {
            assert(self@ =~= old(self)@.map_values(|e: MeshEntryView<I, B>| cleared(e)));
        }
    }

    /// The handle under which `filepath` was registered last, or the invalid
    /// handle where it never was.
    pub fn get_mesh_id(&self, filepath: &str) -> (id: MeshID)
        ensures
            id == lookup(self@, filepath@),
    {
        let wanted = String::from_str(filepath);
        let mut k: usize = self.entries.len();
        proof {
            assert(self@.take(k as int) =~= self@);
        }
        while k > 0
            invariant
                0 <= k <= self.entries.len(),
                wanted@ == filepath@,
                lookup(self@, filepath@) == lookup(self@.take(k as int), filepath@),
            decreases k,
        {
            if self.entries[k - 1].path == wanted {
                assert(self@.take(k as int).last().path == filepath@);
                return MeshID(k);
            }
            proof {
                assert(self@.take(k as int).drop_last() =~= self@.take(k - 1));
            }
            k -= 1;
        }
        MeshID(0)
    }

    /// The batch of `mesh_id`, if there is such a mesh.
    pub fn batch(&self, mesh_id: MeshID) -> (found: Option<&MeshBatch<I, B>>)
        ensures
            found is Some == (1 <= mesh_id.0 <= self@.len()),
            found matches Some(b) ==> b@ == self@[mesh_id.0 - 1].batch,
    {
        if mesh_id.0 == 0 || mesh_id.0 > self.entries.len() {
            None
        } else {
            Some(&self.entries[mesh_id.0 - 1].batch)
        }
    }

    /// All batches, in order of registration.
    pub fn iter_batches(&self) -> (batches: Vec<&MeshBatch<I, B>>)
        ensures
            batches.len() == self@.len(),
            forall|k: int| 0 <= k < batches.len() ==> (#[trigger] batches[k])@ == self@[k].batch,
    {
        let mut batches: Vec<&MeshBatch<I, B>> = Vec::new();
        let mut k: usize = 0;
        while k < self.entries.len()
            invariant
                0 <= k <= self.entries.len(),
                batches.len() == k,
                forall|j: int| 0 <= j < k ==> (#[trigger] batches[j])@ == self@[j].batch,
            decreases self.entries.len() - k,
        {
            batches.push(&self.entries[k].batch);
            k += 1;
        }
        batches
    }
}

} // verus!
