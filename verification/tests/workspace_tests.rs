use noir_playground::workspace::allocate;

#[test]
fn allocate_builds_the_fixed_layout() {
    let w = allocate("/srv/playground");
    assert_eq!(w.token.len(), 36);
    assert!(w
        .token
        .chars()
        .all(|c| c == '-' || c.is_ascii_hexdigit() && !c.is_ascii_uppercase()));
    assert_eq!(w.root, format!("/srv/playground/tmp/noir_projects/{}", w.token));
    assert_eq!(w.project_dir, format!("{}/project", w.root));
    assert_eq!(w.source_file, format!("{}/project/src/main.nr", w.root));
    assert_eq!(w.prover_file, format!("{}/project/Prover.toml", w.root));
}

#[test]
fn allocate_twice_gives_distinct_paths() {
    let a = allocate("/srv/playground");
    let b = allocate("/srv/playground");
    assert_ne!(a.token, b.token);
    assert_ne!(a.root, b.root);
    assert_ne!(a.source_file, b.source_file);
}
