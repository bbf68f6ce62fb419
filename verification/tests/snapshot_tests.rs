use fresh::snapshot::{
    path_basename, path_dirname, path_extname, path_is_absolute, path_join, BufferSnapshot,
    EditorStateSnapshot,
};

#[test]
fn test_path_helpers() {
    assert_eq!(path_dirname("plugins/lib/util.ts"), "plugins/lib");
    assert_eq!(path_dirname("util.ts"), "");
    assert_eq!(path_basename("plugins/lib/util.ts"), "util.ts");
    assert_eq!(path_basename("util.ts"), "util.ts");
    assert_eq!(path_extname("plugins/lib/util.ts"), ".ts");
    assert_eq!(path_extname("plugins/lib/Makefile"), "");
    assert_eq!(path_extname("plugins/.hidden"), "");
    assert!(path_is_absolute("/etc/hosts"));
    assert!(!path_is_absolute("relative/path"));
}

#[test]
fn test_path_join_absolute_restarts() {
    let parts = vec!["plugins".to_string(), "lib".to_string(), "util.ts".to_string()];
    assert_eq!(path_join(&parts), "plugins/lib/util.ts");
    let restart = vec!["plugins".to_string(), "/abs".to_string(), "x".to_string()];
    assert_eq!(path_join(&restart), "/abs/x");
    assert_eq!(path_join(&Vec::new()), "");
}

#[test]
fn test_snapshot_buffer_queries() {
    let mut snap = EditorStateSnapshot::new();
    snap.buffers.push((
        3,
        BufferSnapshot { path: Some("notes.txt".to_string()), length: 120, modified: true },
    ));
    snap.buffers.push((4, BufferSnapshot { path: None, length: 7, modified: false }));
    assert_eq!(snap.buffer_path(3), "notes.txt");
    assert_eq!(snap.buffer_path(4), "");
    assert_eq!(snap.buffer_path(99), "");
    assert_eq!(snap.buffer_length(3), 120);
    assert_eq!(snap.buffer_length(99), 0);
    assert!(snap.buffer_modified(3));
    assert!(!snap.buffer_modified(4));
    assert!(!snap.buffer_modified(99));
}
