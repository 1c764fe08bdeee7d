use glam::{Mat4, Vec3, Vec4, Vec4Swizzles};
use scene_engine::components::{Camera, Mesh, MeshHandle, PBRShader, Shader, Texture};
use scene_engine::ecs::{Ecs, FrameError, FrameStage, HierarchyError};

fn world() -> Ecs<Mat4, Vec3> {
    Ecs::new(Mat4::IDENTITY, Vec3::ZERO)
}

fn compose(parent: Mat4, local: Mat4) -> Mat4 {
    parent * local
}

fn translation_of(m: Mat4) -> Vec3 {
    m.w_axis.xyz()
}

fn mesh(vao: u32, n: usize) -> Mesh<[f32; 3]> {
    Mesh { vertices: vec![[0.0, 0.0, 0.0]; n], indices: (0..n as u32).collect(), vao, vbo: vao + 100, ebo: vao + 200 }
}

#[test]
fn child_translation_composes_with_parent() {
    let mut ecs = world();
    let a = ecs.create_entity("A", Mat4::from_translation(Vec3::new(1.0, 0.0, 0.0)), None);
    let b = ecs.create_entity("B", Mat4::from_translation(Vec3::new(0.0, 2.0, 0.0)), Some(a));
    ecs.update_system(compose);
    assert_eq!(translation_of(ecs.global_of(b).unwrap()), Vec3::new(1.0, 2.0, 0.0));
    assert_eq!(translation_of(ecs.global_of(a).unwrap()), Vec3::new(1.0, 0.0, 0.0));
}

#[test]
fn new_entity_starts_with_identity_world_transform() {
    let mut ecs = world();
    let a = ecs.create_entity("A", Mat4::from_translation(Vec3::new(3.0, 0.0, 0.0)), None);
    assert_eq!(ecs.global_of(a), Some(Mat4::IDENTITY));
    assert_eq!(ecs.name_of(a), Some("A"));
    assert_eq!(ecs.parent_of(a), None);
    assert_eq!(ecs.frame_stage(), FrameStage::Stale);
}

#[test]
fn propagation_resolves_every_level_of_a_deep_hierarchy() {
    let mut ecs = world();
    let l0 = Mat4::from_scale(Vec3::splat(2.0));
    let l1 = Mat4::from_rotation_y(0.5);
    let l2 = Mat4::from_translation(Vec3::new(1.0, 2.0, 3.0));
    let l3 = Mat4::from_translation(Vec3::new(-1.0, 0.0, 4.0));
    // Created child first, linked afterwards, so ids do not follow depth.
    let d3 = ecs.create_entity("d3", l3, None);
    let d2 = ecs.create_entity("d2", l2, None);
    let d1 = ecs.create_entity("d1", l1, None);
    let d0 = ecs.create_entity("d0", l0, None);
    assert_eq!(ecs.set_parent(d3, d2), Ok(()));
    assert_eq!(ecs.set_parent(d2, d1), Ok(()));
    assert_eq!(ecs.set_parent(d1, d0), Ok(()));
    ecs.update_system(compose);
    assert_eq!(ecs.frame_stage(), FrameStage::Resolved);
    let g0 = ecs.global_of(d0).unwrap();
    let g1 = ecs.global_of(d1).unwrap();
    let g2 = ecs.global_of(d2).unwrap();
    let g3 = ecs.global_of(d3).unwrap();
    assert_eq!(g0, l0);
    assert_eq!(g1, g0 * l1);
    assert_eq!(g2, g1 * l2);
    assert_eq!(g3, g2 * l3);
}

#[test]
fn second_propagation_changes_nothing() {
    let mut ecs = world();
    let a = ecs.create_entity("a", Mat4::from_rotation_z(0.3), None);
    let b = ecs.create_entity("b", Mat4::from_translation(Vec3::new(0.5, 1.5, 0.0)), Some(a));
    let c = ecs.create_entity("c", Mat4::from_scale(Vec3::new(1.0, 3.0, 1.0)), Some(b));
    ecs.update_system(compose);
    let first: Vec<Mat4> = [a, b, c].iter().map(|&e| ecs.global_of(e).unwrap()).collect();
    ecs.update_system(compose);
    let second: Vec<Mat4> = [a, b, c].iter().map(|&e| ecs.global_of(e).unwrap()).collect();
    assert_eq!(first, second);
}

#[test]
fn reparenting_to_a_descendant_is_refused() {
    let mut ecs = world();
    let a = ecs.create_entity("a", Mat4::IDENTITY, None);
    let b = ecs.create_entity("b", Mat4::IDENTITY, Some(a));
    let c = ecs.create_entity("c", Mat4::IDENTITY, Some(b));
    assert_eq!(ecs.set_parent(a, c), Err(HierarchyError::Cycle));
    assert_eq!(ecs.set_parent(a, b), Err(HierarchyError::Cycle));
    assert_eq!(ecs.set_parent(b, b), Err(HierarchyError::Cycle));
    assert_eq!(ecs.parent_of(a), None);
    assert_eq!(ecs.parent_of(b), Some(a));
    assert_eq!(ecs.parent_of(c), Some(b));
    assert!(ecs.is_descendant(c, a));
    assert!(!ecs.is_descendant(a, c));
}

#[test]
fn reparenting_moves_a_subtree() {
    let mut ecs = world();
    let a = ecs.create_entity("a", Mat4::from_translation(Vec3::X), None);
    let b = ecs.create_entity("b", Mat4::from_translation(Vec3::Y), None);
    let c = ecs.create_entity("c", Mat4::from_translation(Vec3::Z), Some(b));
    assert_eq!(ecs.set_parent(b, a), Ok(()));
    assert_eq!(ecs.parent_of(b), Some(a));
    assert!(ecs.is_descendant(c, a));
    ecs.update_system(compose);
    assert_eq!(translation_of(ecs.global_of(c).unwrap()), Vec3::new(1.0, 1.0, 1.0));
}

#[test]
fn set_parent_with_unknown_entity_is_refused() {
    let mut ecs = world();
    let a = ecs.create_entity("a", Mat4::IDENTITY, None);
    assert_eq!(ecs.set_parent(a, 7), Err(HierarchyError::UnknownEntity));
    assert_eq!(ecs.set_parent(7, a), Err(HierarchyError::UnknownEntity));
}

#[test]
fn destroy_removes_descendants() {
    let mut ecs = world();
    let a = ecs.create_entity("a", Mat4::IDENTITY, None);
    let b = ecs.create_entity("b", Mat4::IDENTITY, Some(a));
    let other = ecs.create_entity("other", Mat4::IDENTITY, None);
    let c = ecs.create_entity("c", Mat4::IDENTITY, Some(b));
    assert_eq!(ecs.destroy(b), vec![b, c]);
    assert!(ecs.is_alive(a));
    assert!(!ecs.is_alive(b));
    assert!(!ecs.is_alive(c));
    assert!(ecs.is_alive(other));
    assert_eq!(ecs.global_of(c), None);
    assert_eq!(ecs.destroy(b), Vec::<usize>::new());
    assert_eq!(ecs.set_parent(a, b), Err(HierarchyError::UnknownEntity));
}

#[test]
fn camera_extraction_requires_propagation() {
    let mut ecs = world();
    let cam = ecs.create_entity("camera", Mat4::IDENTITY, None);
    ecs.add_camera(cam, Camera { projection: Mat4::IDENTITY });
    assert_eq!(ecs.camera_system(|m: Mat4| m.inverse(), translation_of), Err(FrameError::TransformsStale));
}

#[test]
fn camera_extraction_without_camera_fails() {
    let mut ecs = world();
    ecs.create_entity("thing", Mat4::IDENTITY, None);
    ecs.update_system(compose);
    assert_eq!(ecs.camera_system(|m: Mat4| m.inverse(), translation_of), Err(FrameError::NoCamera));
}

#[test]
fn camera_extraction_with_two_cameras_fails() {
    let mut ecs = world();
    let c1 = ecs.create_entity("c1", Mat4::IDENTITY, None);
    let c2 = ecs.create_entity("c2", Mat4::IDENTITY, None);
    ecs.add_camera(c1, Camera { projection: Mat4::IDENTITY });
    ecs.add_camera(c2, Camera { projection: Mat4::IDENTITY });
    ecs.update_system(compose);
    assert_eq!(ecs.camera_system(|m: Mat4| m.inverse(), translation_of), Err(FrameError::MultipleCameras));
    assert_eq!(ecs.frame_stage(), FrameStage::Resolved);
}

#[test]
fn camera_extraction_reads_resolved_world_transform() {
    let mut ecs = world();
    let rig = ecs.create_entity("rig", Mat4::from_translation(Vec3::new(0.0, 5.0, 0.0)), None);
    let cam = ecs.create_entity("camera", Mat4::from_translation(Vec3::new(-1.0, 0.0, 2.0)), Some(rig));
    let projection = Mat4::perspective_rh_gl(0.8, 16.0 / 9.0, 0.1, 100.0);
    ecs.add_camera(cam, Camera { projection });
    ecs.update_system(compose);
    assert_eq!(ecs.camera_system(|m: Mat4| m.inverse(), translation_of), Ok(cam));
    let data = ecs.active_camera();
    assert_eq!(data.pos, Vec3::new(-1.0, 5.0, 2.0));
    assert_eq!(data.projection, projection);
    let world_cam = ecs.global_of(cam).unwrap();
    assert_eq!(data.view, world_cam.inverse());
    assert_eq!(ecs.frame_stage(), FrameStage::CameraReady);
    let p = world_cam * Vec4::new(0.0, 0.0, 0.0, 1.0);
    assert_eq!(p.xyz(), data.pos);
}

#[test]
fn new_world_camera_record_is_identity() {
    let ecs = world();
    let data = ecs.active_camera();
    assert_eq!(data.pos, Vec3::ZERO);
    assert_eq!(data.view, Mat4::IDENTITY);
    assert_eq!(data.projection, Mat4::IDENTITY);
}

#[test]
fn render_requires_camera_extraction() {
    let mut ecs = world();
    let cam = ecs.create_entity("camera", Mat4::IDENTITY, None);
    ecs.add_camera(cam, Camera { projection: Mat4::IDENTITY });
    assert!(matches!(ecs.render_system(), Err(FrameError::CameraStale)));
    ecs.update_system(compose);
    assert!(matches!(ecs.render_system(), Err(FrameError::CameraStale)));
    assert_eq!(ecs.camera_system(|m: Mat4| m.inverse(), translation_of), Ok(cam));
    assert!(ecs.render_system().is_ok());
    ecs.set_local(cam, Mat4::from_translation(Vec3::X));
    assert!(matches!(ecs.render_system(), Err(FrameError::CameraStale)));
}

#[test]
fn render_lists_entities_with_mesh_and_shader() {
    let mut ecs = world();
    let cam = ecs.create_entity("camera", Mat4::IDENTITY, None);
    ecs.add_camera(cam, Camera { projection: Mat4::IDENTITY });
    let cube = ecs.create_entity("cube", Mat4::from_translation(Vec3::X), None);
    let bare = ecs.create_entity("bare", Mat4::IDENTITY, None);
    let ground = ecs.create_entity("ground", Mat4::from_translation(Vec3::Y), Some(cube));
    let shader = Shader { id: 9 };
    let cube_mesh = mesh(3, 36);
    let ground_mesh = mesh(4, 6);
    ecs.add_mesh(cube, &cube_mesh, Some(Texture { id: 5 }));
    ecs.add_pbr_shader(cube, shader);
    ecs.add_mesh(ground, &ground_mesh, None);
    ecs.add_pbr_shader(ground, shader);
    ecs.add_mesh(bare, &ground_mesh, None);
    ecs.update_system(compose);
    assert_eq!(ecs.camera_system(|m: Mat4| m.inverse(), translation_of), Ok(cam));
    let items = ecs.render_system().unwrap();
    assert_eq!(items.len(), 2);
    assert_eq!(items[0].entity, cube);
    assert_eq!(items[0].mesh, MeshHandle { vao: 3, index_count: 36 });
    assert_eq!(items[0].texture, Some(Texture { id: 5 }));
    assert_eq!(items[0].shader, shader);
    assert_eq!(items[0].model, Mat4::from_translation(Vec3::X));
    assert_eq!(items[1].entity, ground);
    assert_eq!(items[1].mesh, MeshHandle { vao: 4, index_count: 6 });
    assert_eq!(items[1].texture, None);
    assert_eq!(translation_of(items[1].model), Vec3::new(1.0, 1.0, 0.0));
}

#[test]
fn adding_a_mesh_without_texture_keeps_the_texture() {
    let mut ecs = world();
    let e = ecs.create_entity("e", Mat4::IDENTITY, None);
    ecs.add_mesh(e, &mesh(1, 3), Some(Texture { id: 2 }));
    ecs.add_mesh(e, &mesh(7, 6), None);
    ecs.add_pbr_shader(e, Shader { id: 1 });
    let cam = ecs.create_entity("camera", Mat4::IDENTITY, None);
    ecs.add_camera(cam, Camera { projection: Mat4::IDENTITY });
    ecs.update_system(compose);
    ecs.camera_system(|m: Mat4| m.inverse(), translation_of).unwrap();
    let items = ecs.render_system().unwrap();
    assert_eq!(items.len(), 1);
    assert_eq!(items[0].mesh, MeshHandle { vao: 7, index_count: 6 });
    assert_eq!(items[0].texture, Some(Texture { id: 2 }));
    assert_eq!(ecs.camera_of(cam).map(|c| c.projection), Some(Mat4::IDENTITY));
    assert_eq!(ecs.local_of(e), Some(Mat4::IDENTITY));
    let _ = PBRShader(Shader { id: 1 });
}

#[test]
fn detached_entity_becomes_a_root() {
    let mut ecs = world();
    let a = ecs.create_entity("a", Mat4::from_translation(Vec3::X), None);
    let b = ecs.create_entity("b", Mat4::from_translation(Vec3::Y), Some(a));
    let c = ecs.create_entity("c", Mat4::from_translation(Vec3::Z), Some(b));
    ecs.detach(b);
    assert_eq!(ecs.parent_of(b), None);
    assert_eq!(ecs.parent_of(c), Some(b));
    assert!(!ecs.is_descendant(c, a));
    ecs.update_system(compose);
    assert_eq!(translation_of(ecs.global_of(c).unwrap()), Vec3::new(0.0, 1.0, 1.0));
    assert_eq!(ecs.set_parent(a, c), Ok(()));
}
