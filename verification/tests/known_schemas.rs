use diesel_schemas::cache::SchemaCache;
use diesel_schemas::switch::SchemaOp;

#[test]
fn new_cache_knows_nothing() {
    let cache = SchemaCache::new();
    assert!(!cache.contains("public"));
    assert_eq!(cache.op_for("public"), SchemaOp::SetSchema);
}

#[test]
fn recording_twice_keeps_one_schema_known() {
    let mut cache = SchemaCache::new();
    cache.record::<String>("tenant_a", SchemaOp::SetSchema, &Ok(()));
    assert!(cache.contains("tenant_a"));
    assert!(!cache.contains("tenant_b"));
    assert!(!cache.contains("tenant_"));
    cache.record::<String>("tenant_a", SchemaOp::SetSchema, &Ok(()));
    assert!(cache.contains("tenant_a"));
}

#[test]
fn successful_set_schema_is_recorded() {
    let mut cache = SchemaCache::new();
    let op = cache.op_for("tenant_a");
    assert_eq!(op, SchemaOp::SetSchema);
    cache.record::<String>("tenant_a", op, &Ok(()));
    assert!(cache.contains("tenant_a"));
    assert_eq!(cache.op_for("tenant_a"), SchemaOp::SetSearchPath);
}

#[test]
fn failed_set_schema_is_not_recorded() {
    let mut cache = SchemaCache::new();
    cache.record("tenant_a", SchemaOp::SetSchema, &Err("connection lost".to_string()));
    assert!(!cache.contains("tenant_a"));
    assert_eq!(cache.op_for("tenant_a"), SchemaOp::SetSchema);
}

#[test]
fn search_path_outcome_does_not_add() {
    let mut cache = SchemaCache::new();
    cache.record::<String>("tenant_a", SchemaOp::SetSearchPath, &Ok(()));
    cache.record::<String>("tenant_b", SchemaOp::EnsureSchema, &Ok(()));
    assert!(!cache.contains("tenant_a"));
    assert!(!cache.contains("tenant_b"));
}

#[test]
fn failure_of_known_schema_keeps_it() {
    let mut cache = SchemaCache::new();
    cache.record::<u8>("tenant_a", SchemaOp::SetSchema, &Ok(()));
    cache.record("tenant_a", SchemaOp::SetSearchPath, &Err(1u8));
    assert!(cache.contains("tenant_a"));
}

#[test]
fn only_successful_set_schema_changes_cache() {
    assert!(SchemaCache::changes_cache(SchemaOp::SetSchema, true));
    assert!(!SchemaCache::changes_cache(SchemaOp::SetSchema, false));
    assert!(!SchemaCache::changes_cache(SchemaOp::SetSearchPath, true));
    assert!(!SchemaCache::changes_cache(SchemaOp::EnsureSchema, true));
}

#[test]
fn many_schemas_are_tracked() {
    let mut cache = SchemaCache::new();
    for i in 0..50 {
        let schema = format!("tenant_{}", i);
        let op = cache.op_for(&schema);
        cache.record::<String>(&schema, op, &Ok(()));
    }
    for i in 0..50 {
        assert!(cache.contains(&format!("tenant_{}", i)));
    }
    assert!(!cache.contains("tenant_50"));
}

#[test]
fn series_of_requests_only_remembers_created_schemas() {
    // A new pool: requests for a, b (failing), a, c; only a and c were created.
    let mut cache = SchemaCache::new();
    let requests: [(&str, bool); 4] = [("a", true), ("b", false), ("a", true), ("c", true)];
    let mut ops = Vec::new();
    for (schema, ok) in requests {
        let op = cache.op_for(schema);
        ops.push(op);
        let outcome: Result<(), ()> = if ok { Ok(()) } else { Err(()) };
        cache.record(schema, op, &outcome);
    }
    assert_eq!(
        ops,
        vec![SchemaOp::SetSchema, SchemaOp::SetSchema, SchemaOp::SetSearchPath, SchemaOp::SetSchema]
    );
    assert!(cache.contains("a"));
    assert!(!cache.contains("b"));
    assert!(cache.contains("c"));
}
