use rqs::cvar::CvarBuilder;

#[test]
fn builder_collects_name_value_and_flags() {
    let b = CvarBuilder::new("cl_thingy", "123");
    assert_eq!(b.name, "cl_thingy");
    assert_eq!(b.string_val, "123");
    assert!(!b.archive);
    assert!(!b.server);

    let b = CvarBuilder::new("r_draworder", "0").archive();
    assert!(b.archive);
    assert!(!b.server);

    let b = CvarBuilder::new("teamplay", "1").archive().server();
    assert!(b.archive);
    assert!(b.server);
    assert_eq!(b.name, "teamplay");
}
