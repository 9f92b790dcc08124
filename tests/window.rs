use voxel_world::window::{NO_MAX_FPS, WindowBuilder};

#[test]
fn window_builder_defaults_and_overrides() {
    let b = WindowBuilder::new();
    assert_eq!((b.width(), b.height()), (960, 540));
    assert_eq!(b.title(), "Untitled");
    assert!(b.vsync());
    assert_eq!(b.max_fps(), NO_MAX_FPS);
    let b = b.with_size(1920, 1080).with_title("Voxels").with_vsync(false).with_max_fps(144);
    assert_eq!((b.width(), b.height()), (1920, 1080));
    assert_eq!(b.title(), "Voxels");
    assert!(!b.vsync());
    assert_eq!(b.max_fps(), 144);
}
