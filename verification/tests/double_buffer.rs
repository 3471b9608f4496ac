use monet::batch::Batch;
use monet::geometry::{Geometry, Instance, Vertex};
use monet::renderer::{Renderer, RendererID};
use monet::scene::{EyeListenerID, SceneDescription};

fn inst(tag: u32) -> Instance {
    Instance {
        position_x: tag,
        position_y: 0,
        position_z: 0,
        direction_x: 1,
        direction_y: 0,
        color_r: 2,
        color_g: 3,
        color_b: 4,
    }
}

fn triangle() -> Geometry {
    Geometry::new(
        vec![
            Vertex { position_x: 0, position_y: 0, position_z: 0 },
            Vertex { position_x: 1, position_y: 0, position_z: 0 },
            Vertex { position_x: 0, position_y: 1, position_z: 0 },
        ],
        vec![0, 1, 2],
    )
}

fn one_scene_renderer() -> Renderer {
    Renderer::spawn(RendererID { raw_id: 1 }, &vec![SceneDescription {}])
}

fn batch<'a>(r: &'a Renderer, scene_id: usize, batch_id: u16) -> &'a Batch {
    r.state.scenes[scene_id].batches.get(&batch_id).unwrap()
}

#[test]
fn scenario_batch_seven_over_three_frames() {
    let a = inst(10);
    let b = inst(11);
    let c = inst(12);
    let d = inst(13);
    let e = inst(14);

    let mut r = one_scene_renderer();
    r.add_batch(0, 7, &triangle());
    assert!(batch(&r, 0, 7).clear_every_frame);

    r.add_several_instances(0, 7, 1, &vec![a, b]);
    assert_eq!(batch(&r, 0, 7).instances, vec![a, b]);
    assert_eq!(batch(&r, 0, 7).boundary, None);

    r.add_several_instances(0, 7, 2, &vec![c]);
    assert_eq!(batch(&r, 0, 7).instances, vec![a, b, c]);
    assert_eq!(batch(&r, 0, 7).boundary, Some(2));

    r.add_several_instances(0, 7, 2, &vec![d]);
    assert_eq!(batch(&r, 0, 7).instances, vec![a, b, c, d]);
    assert_eq!(batch(&r, 0, 7).boundary, Some(2));

    r.add_several_instances(0, 7, 3, &vec![e]);
    assert_eq!(batch(&r, 0, 7).instances, vec![c, d, e]);
    assert_eq!(batch(&r, 0, 7).boundary, Some(2));
    assert_eq!(batch(&r, 0, 7).last_frame, Some(3));
}

#[test]
fn bounded_memory_holds_two_frames_at_most() {
    let mut r = one_scene_renderer();
    r.add_batch(0, 1, &triangle());
    // Three records in frame 1, two in frame 2, one in frame 3: the buffer
    // never holds more than the last two frames' submissions.
    r.add_several_instances(0, 1, 1, &vec![inst(1), inst(2), inst(3)]);
    assert_eq!(batch(&r, 0, 1).instances.len(), 3);
    r.add_several_instances(0, 1, 2, &vec![inst(4), inst(5)]);
    assert_eq!(batch(&r, 0, 1).instances.len(), 5);
    r.add_instance(0, 1, 3, inst(6));
    assert_eq!(batch(&r, 0, 1).instances.len(), 3);
    r.add_instance(0, 1, 4, inst(7));
    assert_eq!(batch(&r, 0, 1).instances.len(), 2);
}

#[test]
fn completed_frame_segment_is_exactly_previous_frame() {
    let mut r = one_scene_renderer();
    r.add_batch(0, 2, &triangle());
    r.add_several_instances(0, 2, 1, &vec![inst(1), inst(2)]);
    r.add_several_instances(0, 2, 2, &vec![inst(3)]);
    r.add_instance(0, 2, 2, inst(4));
    r.add_instance(0, 2, 2, inst(5));
    // First submission of frame 3: the stable segment is frame 2, complete
    // and in submission order, with nothing of frame 1 or frame 3 in it.
    r.add_instance(0, 2, 3, inst(6));
    let bt = batch(&r, 0, 2);
    let end = bt.boundary.unwrap();
    assert_eq!(bt.instances[..end].to_vec(), vec![inst(3), inst(4), inst(5)]);
    assert_eq!(bt.instances[end..].to_vec(), vec![inst(6)]);
}

#[test]
fn same_frame_resubmission_never_moves_boundary() {
    let mut r = one_scene_renderer();
    r.add_batch(0, 3, &triangle());
    r.add_several_instances(0, 3, 1, &vec![inst(1)]);
    r.add_several_instances(0, 3, 2, &vec![inst(2)]);
    let before = batch(&r, 0, 3).boundary;
    r.add_several_instances(0, 3, 2, &vec![inst(3), inst(4)]);
    r.add_instance(0, 3, 2, inst(5));
    let bt = batch(&r, 0, 3);
    assert_eq!(bt.boundary, before);
    assert_eq!(bt.instances, vec![inst(1), inst(2), inst(3), inst(4), inst(5)]);
}

#[test]
fn replacing_a_batch_discards_its_instances() {
    let mut r = one_scene_renderer();
    r.add_batch(0, 9, &triangle());
    r.add_several_instances(0, 9, 1, &vec![inst(1), inst(2)]);
    r.add_several_instances(0, 9, 2, &vec![inst(3)]);
    r.add_batch(0, 9, &triangle());
    assert_eq!(batch(&r, 0, 9).instances.len(), 0);
    assert_eq!(batch(&r, 0, 9).boundary, None);
    assert_eq!(batch(&r, 0, 9).last_frame, None);
    r.add_instance(0, 9, 5, inst(4));
    assert_eq!(batch(&r, 0, 9).instances, vec![inst(4)]);
}

#[test]
fn non_clearing_batch_accumulates_regardless_of_frames() {
    let mut r = one_scene_renderer();
    r.update_individual(0, 4, &triangle(), &inst(100), false);
    assert!(!batch(&r, 0, 4).clear_every_frame);
    r.add_several_instances(0, 4, 5, &vec![inst(1), inst(2)]);
    r.add_instance(0, 4, 3, inst(3));
    r.add_several_instances(0, 4, 9, &vec![inst(4)]);
    let bt = batch(&r, 0, 4);
    assert_eq!(bt.instances, vec![inst(1), inst(2), inst(3), inst(4)]);
    assert_eq!(bt.boundary, None);
}

#[test]
fn stale_frame_submission_is_dropped() {
    let mut r = one_scene_renderer();
    r.add_batch(0, 5, &triangle());
    r.add_instance(0, 5, 5, inst(1));
    r.add_instance(0, 5, 6, inst(2));
    r.add_instance(0, 5, 3, inst(99));
    let bt = batch(&r, 0, 5);
    assert_eq!(bt.instances, vec![inst(1), inst(2)]);
    assert_eq!(bt.boundary, Some(1));
    assert_eq!(bt.last_frame, Some(6));
}

#[test]
fn empty_submission_still_drives_the_transition() {
    let mut r = one_scene_renderer();
    r.add_batch(0, 6, &triangle());
    r.add_several_instances(0, 6, 1, &vec![inst(1)]);
    r.add_several_instances(0, 6, 2, &vec![]);
    let bt = batch(&r, 0, 6);
    assert_eq!(bt.instances, vec![inst(1)]);
    assert_eq!(bt.boundary, Some(1));
    assert_eq!(bt.last_frame, Some(2));
    r.add_instance(0, 6, 2, inst(2));
    assert_eq!(batch(&r, 0, 6).instances, vec![inst(1), inst(2)]);
}

#[test]
fn spawn_creates_one_empty_scene_per_description() {
    let descriptions = vec![SceneDescription {}, SceneDescription {}, SceneDescription {}];
    let r = Renderer::spawn(RendererID { raw_id: 7 }, &descriptions);
    assert_eq!(r.id, RendererID { raw_id: 7 });
    assert_eq!(r.state.current_frame, 0);
    assert_eq!(r.state.scenes.len(), 3);
    for scene in &r.state.scenes {
        assert!(scene.batches.is_empty());
        assert!(scene.eye_listeners.is_empty());
    }
}

#[test]
fn eye_listener_registration_appends_duplicates() {
    let mut r = one_scene_renderer();
    let listener = EyeListenerID { raw_id: 42 };
    r.add_eye_listener(0, listener);
    r.add_eye_listener(0, listener);
    r.add_eye_listener(0, EyeListenerID { raw_id: 43 });
    assert_eq!(
        r.state.scenes[0].eye_listeners,
        vec![listener, listener, EyeListenerID { raw_id: 43 }]
    );
}

#[test]
fn individual_bakes_one_record_into_drawable() {
    let mut r = one_scene_renderer();
    r.add_batch(0, 8, &triangle());
    r.add_instance(0, 8, 1, inst(1));
    r.update_individual(0, 8, &triangle(), &inst(55), true);
    let bt = batch(&r, 0, 8);
    assert_eq!(bt.drawable.baked_instance, Some(inst(55)));
    assert!(bt.drawable.is_decal);
    assert!(!bt.clear_every_frame);
    assert_eq!(bt.instances.len(), 0);
}

#[test]
fn batch_drawable_copies_the_prototype() {
    let mut r = one_scene_renderer();
    let prototype = triangle();
    r.add_batch(0, 1, &prototype);
    let bt = batch(&r, 0, 1);
    assert_eq!(bt.drawable.vertices, prototype.vertices);
    assert_eq!(bt.drawable.indices, prototype.indices);
    assert_eq!(bt.drawable.baked_instance, None);
    assert!(!bt.drawable.is_decal);
}

#[test]
fn batches_and_scenes_stay_independent() {
    let descriptions = vec![SceneDescription {}, SceneDescription {}];
    let mut r = Renderer::spawn(RendererID { raw_id: 2 }, &descriptions);
    r.add_batch(0, 1, &triangle());
    r.add_batch(0, 2, &triangle());
    r.add_batch(1, 1, &triangle());
    r.add_instance(0, 1, 1, inst(1));
    r.add_instance(0, 2, 4, inst(2));
    r.add_instance(1, 1, 9, inst(3));
    assert_eq!(batch(&r, 0, 1).instances, vec![inst(1)]);
    assert_eq!(batch(&r, 0, 1).last_frame, Some(1));
    assert_eq!(batch(&r, 0, 2).instances, vec![inst(2)]);
    assert_eq!(batch(&r, 0, 2).last_frame, Some(4));
    assert_eq!(batch(&r, 1, 1).instances, vec![inst(3)]);
    assert_eq!(batch(&r, 1, 1).last_frame, Some(9));
}
