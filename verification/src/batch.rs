//! A draw batch: an accumulator of instance records under one draw identity,
//! together with the double-buffer frame transition that keeps one complete,
//! stable frame available to a consumer at all times.
//!
//! Producers submit instance records tagged with a logical frame number,
//! incrementally and without a swap signal. A clear-every-frame batch keeps
//! the previous frame's records until the next frame's first submission
//! arrives, and only then discards the frame before that; the `boundary`
//! index separates the completed previous frame (below it) from the frame
//! still accumulating (at and above it). A batch with `clear_every_frame`
//! false accumulates without ever truncating, for static geometry.

use vstd::prelude::*;
use crate::geometry::{Geometry, GeometryView, Instance};

verus! {

/// The backend resource of a batch, as the engine sees it: the mesh it was
/// materialized from, an optionally baked-in single instance record, and the
/// decal flag. The embedding owns the actual GPU object; it is rebuilt from
/// this data and replaced wholesale whenever the batch is replaced.
pub struct Drawable {
    pub vertices: Vec<crate::geometry::Vertex>,
    pub indices: Vec<u16>,
    pub baked_instance: Option<Instance>,
    pub is_decal: bool,
}

/// The mathematical content of a drawable.
#[verifier::ext_equal]
pub ghost struct DrawableView {
    pub vertices: Seq<crate::geometry::Vertex>,
    pub indices: Seq<u16>,
    pub baked_instance: Option<Instance>,
    pub is_decal: bool,
}

impl View for Drawable {
    type V = DrawableView;

    open spec fn view(&self) -> DrawableView {
        DrawableView {
            vertices: self.vertices@,
            indices: self.indices@,
            baked_instance: self.baked_instance,
            is_decal: self.is_decal,
        }
    }
}

/// An accumulator of instance records under one draw identity.
pub struct Batch {
    /// The batch's drawable representation, replaced wholesale on re-creation.
    pub drawable: Drawable,
    /// Fixed at creation: whether the double-buffer frame transition applies.
    pub clear_every_frame: bool,
    /// The highest frame number an instance has been accepted for; absent
    /// until the first acceptance.
    pub last_frame: Option<usize>,
    /// The instance records, in submission order: the completed previous
    /// frame first, then the still-accumulating current frame.
    pub instances: Vec<Instance>,
    /// The index separating the previous completed frame (below) from the
    /// current, still-accumulating frame (at and above); absent until the
    /// first frame transition.
    pub boundary: Option<usize>,
}

/// The mathematical content of a batch.
#[verifier::ext_equal]
pub ghost struct BatchView {
    pub drawable: DrawableView,
    pub clear_every_frame: bool,
    pub last_frame: Option<nat>,
    pub instances: Seq<Instance>,
    pub boundary: Option<nat>,
}

impl View for Batch {
    type V = BatchView;

    open spec fn view(&self) -> BatchView {
        BatchView {
            drawable: self.drawable@,
            clear_every_frame: self.clear_every_frame,
            last_frame: match self.last_frame {
                Some(f) => Some(f as nat),
                None => None,
            },
            instances: self.instances@,
            boundary: match self.boundary {
                Some(b) => Some(b as nat),
                None => None,
            },
        }
    }
}

impl BatchView {
    /// The boundary, where present, lies within the instance sequence and a
    /// transition has set the last frame with it; a batch that never clears
    /// never gains a boundary or a frame mark.
    pub open spec fn wf(self) -> bool {
        &&& match self.boundary {
            Some(b) => b <= self.instances.len() && self.last_frame is Some,
            None => true,
        }
        &&& !self.clear_every_frame ==> self.boundary is None && self.last_frame is None
    }

    /// A batch that has not accepted any submission yet.
    pub open spec fn initial(self) -> bool {
        &&& self.last_frame is None
        &&& self.instances == Seq::<Instance>::empty()
        &&& self.boundary is None
    }
}

/// Whether a batch takes a submission for the given frame at all. A clearing
/// batch refuses a frame below its last accepted one: such a stale submission
/// is dropped rather than let it tear the completed frame segment.
pub open spec fn accepts(pre: BatchView, frame: nat) -> bool {
    ||| !pre.clear_every_frame
    ||| match pre.last_frame {
        None => true,
        Some(l) => frame >= l,
    }
}

/// The frame bookkeeping a submission performs before its records are
/// appended. Only a clearing batch that sees a frame above its last accepted
/// one transitions: the segment before the boundary - the frame before the
/// previous one - is dropped, the boundary moves to the end of the kept
/// segment, and the new frame is recorded.
pub open spec fn transitioned(pre: BatchView, frame: nat) -> BatchView {
    if !pre.clear_every_frame {
        pre
    } else {
        match pre.last_frame {
            None => BatchView { last_frame: Some(frame), ..pre },
            Some(l) => {
                if frame > l {
                    let kept = match pre.boundary {
                        Some(b) => pre.instances.skip(b as int),
                        None => pre.instances,
                    };
                    BatchView {
                        last_frame: Some(frame),
                        instances: kept,
                        boundary: Some(kept.len()),
                        ..pre
                    }
                } else {
                    pre
                }
            },
        }
    }
}

/// What one submission does to a batch: if the frame is acceptable, the frame
/// bookkeeping runs and the records are appended in order; a stale submission
/// leaves the batch unchanged.
pub open spec fn submit_spec(pre: BatchView, frame: nat, items: Seq<Instance>) -> BatchView {
    if accepts(pre, frame) {
        let t = transitioned(pre, frame);
        BatchView { instances: t.instances + items, ..t }
    } else {
        pre
    }
}

/// The batch a fresh many-instance creation yields: the prototype baked into
/// the drawable, clearing every frame, no acceptance yet.
pub open spec fn batch_new_view(prototype: GeometryView) -> BatchView {
    BatchView {
        drawable: DrawableView {
            vertices: prototype.vertices,
            indices: prototype.indices,
            baked_instance: None,
            is_decal: false,
        },
        clear_every_frame: true,
        last_frame: None,
        instances: Seq::empty(),
        boundary: None,
    }
}

/// The batch a single-instance creation yields: exactly one record baked into
/// the drawable, never cleared.
pub open spec fn batch_individual_view(
    geometry: GeometryView,
    instance_info: Instance,
    is_decal: bool,
) -> BatchView {
    BatchView {
        drawable: DrawableView {
            vertices: geometry.vertices,
            indices: geometry.indices,
            baked_instance: Some(instance_info),
            is_decal,
        },
        clear_every_frame: false,
        last_frame: None,
        instances: Seq::empty(),
        boundary: None,
    }
}

impl Batch {
    /// A fresh clear-every-frame batch built from a geometry prototype.
    pub fn new(prototype: &Geometry) -> (r: Batch)
        ensures
            r@ == batch_new_view(prototype@),
            r@.wf(),
    {
        let copy = prototype.duplicate();
        let r = Batch {
            drawable: Drawable {
                vertices: copy.vertices,
                indices: copy.indices,
                baked_instance: None,
                is_decal: false,
            },
            clear_every_frame: true,
            last_frame: None,
            instances: Vec::new(),
            boundary: None,
        };
        proof {
            assert(r@ =~= batch_new_view(prototype@));
        }
        r
    }

    /// A single-instance batch: the record is baked into the drawable and the
    /// batch never clears, so later submissions accumulate unboundedly.
    pub fn new_individual(geometry: &Geometry, instance_info: Instance, is_decal: bool) -> (r:
        Batch)
        ensures
            r@ == batch_individual_view(geometry@, instance_info, is_decal),
            r@.wf(),
    {
        let copy = geometry.duplicate();
        let r = Batch {
            drawable: Drawable {
                vertices: copy.vertices,
                indices: copy.indices,
                baked_instance: Some(instance_info),
                is_decal,
            },
            clear_every_frame: false,
            last_frame: None,
            instances: Vec::new(),
            boundary: None,
        };
        proof {
            assert(r@ =~= batch_individual_view(geometry@, instance_info, is_decal));
        }
        r
    }

    /// Applies one submission of several records for a frame.
    pub fn submit_all(&mut self, frame: usize, items: &Vec<Instance>)
        requires
            old(self)@.wf(),
        ensures
            final(self)@ == submit_spec(old(self)@, frame as nat, items@),
            final(self)@.wf(),
    {
        if self.clear_every_frame {
            match self.last_frame {
                None => {
                    self.last_frame = Some(frame);
                },
                Some(l) => {
                    if frame > l {
                        match self.boundary {
                            Some(end) => {
                                let tail = self.instances.split_off(end);
                                self.instances = tail;
                            },
                            None => {},
                        }
                        self.boundary = Some(self.instances.len());
                        self.last_frame = Some(frame);
                    } else if frame < l {
                        proof {
                            assert(self@ =~= submit_spec(old(self)@, frame as nat, items@));
                        }
                        return ;
                    }
                },
            }
        }
        let ghost t = transitioned(old(self)@, frame as nat);
        proof {
            assert(self@.instances =~= t.instances);
            assert(self@ =~= t);
        }
        let n = items.len();
        let mut i: usize = 0;
        while i < n
            invariant
                i <= n,
                n == items@.len(),
                self@ == (BatchView { instances: t.instances + items@.take(i as int), ..t }),
            decreases n - i,
        {
            self.instances.push(items[i]);
            proof {
                assert(t.instances + items@.take(i + 1) =~= (t.instances + items@.take(
                    i as int,
                )).push(items@[i as int]));
                assert(self@ =~= BatchView { instances: t.instances + items@.take(i + 1), ..t });
            }
            i += 1;
        }
        proof {
            assert(items@.take(n as int) =~= items@);
            assert(self@ =~= submit_spec(old(self)@, frame as nat, items@));
        }
    }

    /// Applies one submission of a single record for a frame.
    pub fn submit(&mut self, frame: usize, instance_info: Instance)
        requires
            old(self)@.wf(),
        ensures
            final(self)@ == submit_spec(old(self)@, frame as nat, seq![instance_info]),
            final(self)@.wf(),
    {
        let mut items: Vec<Instance> = Vec::new();
        items.push(instance_info);
        proof {
            assert(items@ =~= seq![instance_info]);
        }
        self.submit_all(frame, &items);
    }
}

} // verus!
