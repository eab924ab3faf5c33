use glassbox::wayland::WaylandRegionSettingState;

#[test]
fn scan_starts_empty() {
    let s = WaylandRegionSettingState::new();
    assert!(!s.initialized);
    assert!(!s.has_layer_shell);
    assert_eq!((s.compositor_name, s.compositor_version), (0, 0));
    assert_eq!((s.zwlr_layer_shell_name, s.zwlr_layer_shell_version), (0, 0));
}

#[test]
fn scan_records_compositor_and_layer_shell() {
    let mut s = WaylandRegionSettingState::new();
    s.on_global(1, "wl_shm", 2);
    assert_eq!(s, WaylandRegionSettingState::new());
    s.on_global(4, "wl_compositor", 6);
    s.on_global(9, "zwlr_layer_shell_v1", 4);
    assert!(s.initialized);
    assert_eq!((s.compositor_name, s.compositor_version), (4, 6));
    assert!(s.has_layer_shell);
    assert_eq!((s.zwlr_layer_shell_name, s.zwlr_layer_shell_version), (9, 4));
}

#[test]
fn scan_keeps_last_announcement() {
    let mut s = WaylandRegionSettingState::new();
    s.on_global(4, "wl_compositor", 5);
    s.on_global(7, "wl_compositor", 6);
    s.on_global(8, "wl_compositor_x", 1);
    assert_eq!((s.compositor_name, s.compositor_version), (7, 6));
    assert!(!s.has_layer_shell);
}
