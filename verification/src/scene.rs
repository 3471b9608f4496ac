//! A scene: the batch table and camera-listener list of one rendering
//! surface. Batches are keyed by a small integer identity with
//! replace-on-insert semantics; listeners are an ordered list, appended to as
//! registered (a duplicate registration duplicates the entry - deduplication
//! is the caller's business).

use vstd::prelude::*;
use std::collections::HashMap;
use crate::batch::{batch_individual_view, batch_new_view, submit_spec, Batch};
use crate::geometry::{Geometry, Instance};

verus! {

broadcast use vstd::std_specs::hash::group_hash_axioms;

/// The identity of a registered camera/eye-movement listener, as assigned by
/// the dispatch layer.
#[derive(Clone, Copy, PartialEq, Eq, Structural, Debug)]
pub struct EyeListenerID {
    pub raw_id: u32,
}

/// What a renderer is asked to build one scene from. The camera parameters a
/// description also carries in the surrounding system stay with the embedding;
/// the engine only needs to know that one scene is wanted.
pub struct SceneDescription {
}

/// One rendering surface's state: its draw batches by identity, and the
/// listeners registered for camera updates.
pub struct Scene {
    pub batches: HashMap<u16, Batch>,
    pub eye_listeners: Vec<EyeListenerID>,
}

impl Scene {
    /// Every batch held satisfies the batch invariant.
    pub open spec fn wf(self) -> bool {
        forall|k: u16| #[trigger]
            self.batches@.contains_key(k) ==> self.batches@[k]@.wf()
    }

    /// A scene with no batches and no listeners.
    pub fn new_empty() -> (r: Scene)
        ensures
            r.wf(),
            r.batches@ == Map::<u16, Batch>::empty(),
            r.eye_listeners@ == Seq::<EyeListenerID>::empty(),
    {
        Scene { batches: HashMap::new(), eye_listeners: Vec::new() }
    }

    /// Registers a camera listener. Registration is not idempotent: a second
    /// registration of the same identity appends a second entry.
    pub fn add_eye_listener(&mut self, listener: EyeListenerID)
        requires
            old(self).wf(),
        ensures
            final(self).wf(),
            final(self).batches@ == old(self).batches@,
            final(self).eye_listeners@ == old(self).eye_listeners@.push(listener),
    {
        self.eye_listeners.push(listener);
    }

    /// Builds a fresh clear-every-frame batch from the prototype and installs
    /// it at the identity, replacing - and with it discarding every instance
    /// of - any batch previously there.
    pub fn add_batch(&mut self, batch_id: u16, prototype: &Geometry)
        requires
            old(self).wf(),
        ensures
            final(self).wf(),
            final(self).eye_listeners@ == old(self).eye_listeners@,
            final(self).batches@.dom() == old(self).batches@.dom().insert(batch_id),
            forall|k: u16|
                k != batch_id && #[trigger] old(self).batches@.contains_key(k) ==> final(self).batches@[k] == old(self).batches@[k],
            final(self).batches@[batch_id]@ == batch_new_view(prototype@),
    {
        let batch = Batch::new(prototype);
        self.batches.insert(batch_id, batch);
        proof {
            assert(self.batches@.dom() =~= old(self).batches@.dom().insert(batch_id));
        }
    }

    /// Builds a single-instance batch - the record baked into the drawable -
    /// and installs it at the identity, replacing any batch previously there.
    pub fn set_individual(
        &mut self,
        individual_id: u16,
        geometry: &Geometry,
        instance_info: &Instance,
        is_decal: bool,
    )
        requires
            old(self).wf(),
        ensures
            final(self).wf(),
            final(self).eye_listeners@ == old(self).eye_listeners@,
            final(self).batches@.dom() == old(self).batches@.dom().insert(individual_id),
            forall|k: u16|
                k != individual_id && #[trigger] old(self).batches@.contains_key(k) ==> final(self).batches@[k] == old(self).batches@[k],
            final(self).batches@[individual_id]@ == batch_individual_view(
                geometry@,
                *instance_info,
                is_decal,
            ),
    {
        let individual = Batch::new_individual(geometry, *instance_info, is_decal);
        self.batches.insert(individual_id, individual);
        proof {
            assert(self.batches@.dom() =~= old(self).batches@.dom().insert(individual_id));
        }
    }

    /// Routes a submission of several records to the named batch, which must
    /// already exist: an instance submission never creates a batch.
    pub fn add_instances_to_batch(&mut self, batch_id: u16, frame: usize, items: &Vec<Instance>)
        requires
            old(self).wf(),
            old(self).batches@.contains_key(batch_id),
        ensures
            final(self).wf(),
            final(self).eye_listeners@ == old(self).eye_listeners@,
            final(self).batches@.dom() == old(self).batches@.dom(),
            forall|k: u16|
                k != batch_id && #[trigger] old(self).batches@.contains_key(k) ==> final(self).batches@[k] == old(self).batches@[k],
            final(self).batches@[batch_id]@ == submit_spec(
                old(self).batches@[batch_id]@,
                frame as nat,
                items@,
            ),
    {
        let taken = self.batches.remove(&batch_id);
        match taken {
            Some(mut batch) => {
                batch.submit_all(frame, items);
                self.batches.insert(batch_id, batch);
                proof {
                    assert(self.batches@.dom() =~= old(self).batches@.dom());
                }
            },
            None => {
                proof {
                    assert(false);
                }
            },
        }
    }

    /// Routes a submission of one record to the named batch, which must
    /// already exist.
    pub fn add_instance_to_batch(&mut self, batch_id: u16, frame: usize, instance_info: Instance)
        requires
            old(self).wf(),
            old(self).batches@.contains_key(batch_id),
        ensures
            final(self).wf(),
            final(self).eye_listeners@ == old(self).eye_listeners@,
            final(self).batches@.dom() == old(self).batches@.dom(),
            forall|k: u16|
                k != batch_id && #[trigger] old(self).batches@.contains_key(k) ==> final(self).batches@[k] == old(self).batches@[k],
            final(self).batches@[batch_id]@ == submit_spec(
                old(self).batches@[batch_id]@,
                frame as nat,
                seq![instance_info],
            ),
    {
        let taken = self.batches.remove(&batch_id);
        match taken {
            Some(mut batch) => {
                batch.submit(frame, instance_info);
                self.batches.insert(batch_id, batch);
                proof {
                    assert(self.batches@.dom() =~= old(self).batches@.dom());
                }
            },
            None => {
                proof {
                    assert(false);
                }
            },
        }
    }
}

impl SceneDescription {
    /// The empty scene this description asks for.
    pub fn to_scene(&self) -> (r: Scene)
        ensures
            r.wf(),
            r.batches@ == Map::<u16, Batch>::empty(),
            r.eye_listeners@ == Seq::<EyeListenerID>::empty(),
    {
        Scene::new_empty()
    }
}

} // verus!
