use coil::Registry;

#[test]
fn generic_jobs_can_be_enqueued() {
    // A generic job registered for one instantiation is found under its type.
    let mut registry: Registry<u32> = Registry::new();
    registry.register_job("resize_image_gen", 1, true);
    assert_eq!(Some(&1), registry.get("resize_image_gen"));
    for _ in 0..5 {
        assert!(registry.get_or_unknown("resize_image_gen").is_ok());
    }
}

#[test]
fn register_then_get() {
    let mut registry: Registry<u32> = Registry::new();
    assert_eq!(None, registry.get("a"));
    registry.register_job("a", 10, true);
    registry.register_job("b", 20, true);
    assert_eq!(Some(&10), registry.get("a"));
    assert_eq!(Some(&20), registry.get("b"));
    assert_eq!(None, registry.get("c"));
}

#[test]
fn registering_again_replaces() {
    let mut registry: Registry<u32> = Registry::new();
    registry.register_job("a", 10, true);
    registry.register_job("a", 11, true);
    assert_eq!(Some(&11), registry.get("a"));
}

#[test]
fn other_environment_is_not_registered() {
    let mut registry: Registry<u32> = Registry::new();
    registry.register_job("a", 10, false);
    assert_eq!(None, registry.get("a"));
    registry.register_job("a", 10, true);
    registry.register_job("a", 12, false);
    assert_eq!(Some(&10), registry.get("a"));
}

#[test]
fn load_keeps_own_environment_and_later_tables() {
    let registry: Registry<u32> =
        Registry::load(&[("a", true, 1), ("b", false, 2), ("a", true, 3), ("c", true, 4)]);
    assert_eq!(Some(&3), registry.get("a"));
    assert_eq!(None, registry.get("b"));
    assert_eq!(Some(&4), registry.get("c"));
}

#[test]
fn unknown_job_type_message() {
    let registry: Registry<u32> = Registry::new();
    assert_eq!(Err("Unknown job type Foo".to_string()), registry.get_or_unknown("Foo"));
}
