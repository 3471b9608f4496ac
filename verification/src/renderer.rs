//! The renderer: the single point of entry for all submissions. It owns the
//! ordered list of scenes and fans submissions out to them by positional
//! index; each batch's frame bookkeeping is purely local, driven by the frame
//! numbers producers send.
//!
//! The surrounding system delivers these calls through an asynchronous
//! dispatch layer that serializes them per renderer (mailbox style), so the
//! methods mutate without any locking; the backend window and GPU context
//! stay with that embedding, which rebuilds each batch's GPU resources from
//! the drawable data kept here.

use vstd::prelude::*;
use crate::batch::{batch_individual_view, batch_new_view, submit_spec};
use crate::geometry::{Geometry, Instance};
use crate::scene::{EyeListenerID, Scene, SceneDescription};
use crate::type_registry::TypeRegistry;

verus! {

/// The identity of a renderer instance, as assigned by the dispatch layer.
#[derive(Clone, Copy, PartialEq, Eq, Structural, Debug)]
pub struct RendererID {
    pub raw_id: u32,
}

/// The mutable state of a renderer: a bookkeeping frame counter and the
/// scenes, indexed positionally and fixed in count after spawning.
pub struct RendererState {
    pub current_frame: usize,
    pub scenes: Vec<Scene>,
}

/// A renderer instance: its dispatch identity and its state.
pub struct Renderer {
    pub id: RendererID,
    pub state: RendererState,
}

impl Renderer {
    /// Every scene held satisfies the scene invariant.
    pub open spec fn wf(self) -> bool {
        forall|i: int|
            0 <= i < self.state.scenes@.len() ==> (#[trigger] self.state.scenes@[i]).wf()
    }

    /// Materializes one empty scene per description. Called once, at startup;
    /// the embedding opens its backend context (window handle, clear color)
    /// beside it.
    pub fn spawn(id: RendererID, scene_descriptions: &Vec<SceneDescription>) -> (r: Renderer)
        ensures
            r.wf(),
            r.id == id,
            r.state.current_frame == 0,
            r.state.scenes@.len() == scene_descriptions@.len(),
            forall|i: int|
                0 <= i < scene_descriptions@.len() ==> {
                    &&& (#[trigger] r.state.scenes@[i]).batches@ == Map::<
                        u16,
                        crate::batch::Batch,
                    >::empty()
                    &&& r.state.scenes@[i].eye_listeners@ == Seq::<EyeListenerID>::empty()
                },
    {
        let mut scenes: Vec<Scene> = Vec::new();
        let mut i: usize = 0;
        while i < scene_descriptions.len()
            invariant
                i <= scene_descriptions@.len(),
                scenes@.len() == i,
                forall|j: int|
                    0 <= j < i ==> {
                        &&& (#[trigger] scenes@[j]).wf()
                        &&& scenes@[j].batches@ == Map::<u16, crate::batch::Batch>::empty()
                        &&& scenes@[j].eye_listeners@ == Seq::<EyeListenerID>::empty()
                    },
            decreases scene_descriptions@.len() - i,
        {
            let scene = scene_descriptions[i].to_scene();
            scenes.push(scene);
            i += 1;
        }
        Renderer { id, state: RendererState { current_frame: 0, scenes } }
    }

    /// Appends a camera listener to the named scene's list. Not idempotent:
    /// a duplicate registration duplicates the entry.
    pub fn add_eye_listener(&mut self, scene_id: usize, listener: EyeListenerID)
        requires
            old(self).wf(),
            scene_id < old(self).state.scenes@.len(),
        ensures
            final(self).wf(),
            final(self).id == old(self).id,
            final(self).state.current_frame == old(self).state.current_frame,
            final(self).state.scenes@.len() == old(self).state.scenes@.len(),
            forall|i: int|
                0 <= i < old(self).state.scenes@.len() && i != scene_id ==> final(self).state.scenes@[i] == #[trigger] old(self).state.scenes@[i],
            final(self).state.scenes@[scene_id as int].batches@ == old(self).state.scenes@[scene_id as int].batches@,
            final(self).state.scenes@[scene_id as int].eye_listeners@ == old(self).state.scenes@[scene_id as int].eye_listeners@.push(listener),
    {
        let scene = &mut self.state.scenes[scene_id];
        scene.add_eye_listener(listener);
    }

    /// Builds a fresh batch from the prototype and installs it at the given
    /// identity in the named scene, replacing - and discarding all instances
    /// of - any batch already there.
    pub fn add_batch(&mut self, scene_id: usize, batch_id: u16, prototype: &Geometry)
        requires
            old(self).wf(),
            scene_id < old(self).state.scenes@.len(),
        ensures
            final(self).wf(),
            final(self).id == old(self).id,
            final(self).state.current_frame == old(self).state.current_frame,
            final(self).state.scenes@.len() == old(self).state.scenes@.len(),
            forall|i: int|
                0 <= i < old(self).state.scenes@.len() && i != scene_id ==> final(self).state.scenes@[i] == #[trigger] old(self).state.scenes@[i],
            ({
                let before = old(self).state.scenes@[scene_id as int];
                let after = final(self).state.scenes@[scene_id as int];
                &&& after.eye_listeners@ == before.eye_listeners@
                &&& after.batches@.dom() == before.batches@.dom().insert(batch_id)
                &&& forall|k: u16|
                    k != batch_id && #[trigger] before.batches@.contains_key(k)
                        ==> after.batches@[k] == before.batches@[k]
                &&& after.batches@[batch_id]@ == batch_new_view(prototype@)
            }),
    {
        let scene = &mut self.state.scenes[scene_id];
        scene.add_batch(batch_id, prototype);
    }

    /// Builds a single-instance batch - exactly one record baked into its
    /// drawable, with the decal flag - and installs it at the given identity
    /// in the named scene, replacing any entry already there.
    pub fn update_individual(
        &mut self,
        scene_id: usize,
        individual_id: u16,
        geometry: &Geometry,
        instance_info: &Instance,
        is_decal: bool,
    )
        requires
            old(self).wf(),
            scene_id < old(self).state.scenes@.len(),
        ensures
            final(self).wf(),
            final(self).id == old(self).id,
            final(self).state.current_frame == old(self).state.current_frame,
            final(self).state.scenes@.len() == old(self).state.scenes@.len(),
            forall|i: int|
                0 <= i < old(self).state.scenes@.len() && i != scene_id ==> final(self).state.scenes@[i] == #[trigger] old(self).state.scenes@[i],
            ({
                let before = old(self).state.scenes@[scene_id as int];
                let after = final(self).state.scenes@[scene_id as int];
                &&& after.eye_listeners@ == before.eye_listeners@
                &&& after.batches@.dom() == before.batches@.dom().insert(individual_id)
                &&& forall|k: u16|
                    k != individual_id && #[trigger] before.batches@.contains_key(k)
                        ==> after.batches@[k] == before.batches@[k]
                &&& after.batches@[individual_id]@ == batch_individual_view(
                    geometry@,
                    *instance_info,
                    is_decal,
                )
            }),
    {
        let scene = &mut self.state.scenes[scene_id];
        scene.set_individual(individual_id, geometry, instance_info, is_decal);
    }

    /// Routes one instance record, tagged with its frame, to the named batch,
    /// which must have been created beforehand: a submission never creates a
    /// batch silently.
    pub fn add_instance(
        &mut self,
        scene_id: usize,
        batch_id: u16,
        frame: usize,
        instance_info: Instance,
    )
        requires
            old(self).wf(),
            scene_id < old(self).state.scenes@.len(),
            old(self).state.scenes@[scene_id as int].batches@.contains_key(batch_id),
        ensures
            final(self).wf(),
            final(self).id == old(self).id,
            final(self).state.current_frame == old(self).state.current_frame,
            final(self).state.scenes@.len() == old(self).state.scenes@.len(),
            forall|i: int|
                0 <= i < old(self).state.scenes@.len() && i != scene_id ==> final(self).state.scenes@[i] == #[trigger] old(self).state.scenes@[i],
            ({
                let before = old(self).state.scenes@[scene_id as int];
                let after = final(self).state.scenes@[scene_id as int];
                &&& after.eye_listeners@ == before.eye_listeners@
                &&& after.batches@.dom() == before.batches@.dom()
                &&& forall|k: u16|
                    k != batch_id && #[trigger] before.batches@.contains_key(k)
                        ==> after.batches@[k] == before.batches@[k]
                &&& after.batches@[batch_id]@ == submit_spec(
                    before.batches@[batch_id]@,
                    frame as nat,
                    seq![instance_info],
                )
            }),
    {
        let scene = &mut self.state.scenes[scene_id];
        scene.add_instance_to_batch(batch_id, frame, instance_info);
    }

    /// Routes a list of instance records, tagged with one frame, to the named
    /// batch, which must have been created beforehand. The records are
    /// appended in the order given.
    pub fn add_several_instances(
        &mut self,
        scene_id: usize,
        batch_id: u16,
        frame: usize,
        instances: &Vec<Instance>,
    )
        requires
            old(self).wf(),
            scene_id < old(self).state.scenes@.len(),
            old(self).state.scenes@[scene_id as int].batches@.contains_key(batch_id),
        ensures
            final(self).wf(),
            final(self).id == old(self).id,
            final(self).state.current_frame == old(self).state.current_frame,
            final(self).state.scenes@.len() == old(self).state.scenes@.len(),
            forall|i: int|
                0 <= i < old(self).state.scenes@.len() && i != scene_id ==> final(self).state.scenes@[i] == #[trigger] old(self).state.scenes@[i],
            ({
                let before = old(self).state.scenes@[scene_id as int];
                let after = final(self).state.scenes@[scene_id as int];
                &&& after.eye_listeners@ == before.eye_listeners@
                &&& after.batches@.dom() == before.batches@.dom()
                &&& forall|k: u16|
                    k != batch_id && #[trigger] before.batches@.contains_key(k)
                        ==> after.batches@[k] == before.batches@[k]
                &&& after.batches@[batch_id]@ == submit_spec(
                    before.batches@[batch_id]@,
                    frame as nat,
                    instances@,
                )
            }),
    {
        let scene = &mut self.state.scenes[scene_id];
        scene.add_instances_to_batch(batch_id, frame, instances);
    }
}

/// What a producer of drawable content implements: asked once to set itself
/// up in a scene, then once per frame to render into it. The dispatch layer
/// delivers both calls.
pub trait Renderable {
    fn setup_in_scene(&mut self, renderer_id: RendererID, scene_id: usize);

    fn render_to_scene(&mut self, renderer_id: RendererID, scene_id: usize, frame: usize);
}

/// Registers the renderer's message-receiver types with the identity registry
/// the dispatch layer consults, idempotently: a type already known keeps its
/// short id. Each entry carries a type's process-wide identity word and its
/// readable name.
pub fn setup(registry: &mut TypeRegistry, receiver_types: Vec<(u64, String)>)
    requires
        old(registry).wf(),
        old(registry).next_id() + receiver_types@.len() <= 0xFFFF,
    ensures
        final(registry).wf(),
        forall|i: int|
            0 <= i < receiver_types@.len() ==> final(registry).ids().contains_key(
                #[trigger] receiver_types@[i].0,
            ),
        forall|l: u64| #[trigger]
            old(registry).ids().contains_key(l) ==> final(registry).ids().contains_key(l),
{
    let ghost all = receiver_types@;
    let mut remaining = receiver_types;
    proof {
        assert(all.take(all.len() as int) =~= all);
    }
    while remaining.len() > 0
        invariant
            registry.wf(),
            remaining@.len() <= all.len(),
            remaining@ == all.take(remaining@.len() as int),
            registry.next_id() + remaining@.len() <= 0xFFFF,
            forall|i: int|
                remaining@.len() <= i < all.len() ==> registry.ids().contains_key(
                    #[trigger] all[i].0,
                ),
            forall|l: u64| #[trigger]
                old(registry).ids().contains_key(l) ==> registry.ids().contains_key(l),
        decreases remaining@.len(),
    {
        let ghost n = remaining@.len();
        let entry = remaining.pop();
        match entry {
            Some((long_id, name)) => {
                proof {
                    assert(remaining@ =~= all.take(n - 1));
                    assert((long_id, name) == all[n - 1]);
                }
                registry.get_or_register(long_id, name);
            },
            None => {
                proof {
                    assert(false);
                }
            },
        }
    }
    proof {
        assert(remaining@.len() == 0);
    }
}

} // verus!
