use routing_core::engine::{Message, RustRoutingEngine};

fn object_payload(key: &str, value: bool) -> serde_json::Value {
    let mut obj = serde_json::Map::new();
    obj.insert(key.to_string(), serde_json::Value::Bool(value));
    serde_json::Value::Object(obj)
}

fn message_for(target: &str) -> Message {
    Message {
        source: "client".to_string(),
        target: target.to_string(),
        payload: object_payload("test", true),
        meta: None,
    }
}

fn metrics_entry(
    engine: &RustRoutingEngine,
    adapter_id: &str,
) -> Option<(u64, u64, u64)> {
    let snapshot = engine.get_metrics();
    for (key, counters) in snapshot.iter() {
        if key == adapter_id {
            return Some(*counters);
        }
    }
    None
}

#[test]
fn test_routing() {
    let mut engine = RustRoutingEngine::new();
    engine.register_route("test-service", "adapter-1");

    let msg = Message {
        source: "client".to_string(),
        target: "test-service".to_string(),
        payload: object_payload("test", true),
        meta: None,
    };

    let result = engine.route(&msg);
    assert!(result.success);
    assert_eq!(result.adapter_id.unwrap(), "adapter-1");
    assert!(result.latency_us < 1000); // < 1ms
}

#[test]
fn first_registered_adapter_is_selected() {
    let mut engine = RustRoutingEngine::new();
    engine.register_route("svc", "only-adapter");
    let result = engine.route(&message_for("svc"));
    assert!(result.success);
    assert_eq!(result.adapter_id.unwrap(), "only-adapter");
    assert!(result.error.is_none());
}

#[test]
fn unregistered_target_is_reported() {
    let mut engine = RustRoutingEngine::new();
    engine.register_route("svc", "adapter-1");
    let result = engine.route(&message_for("other-svc"));
    assert!(!result.success);
    assert!(result.adapter_id.is_none());
    assert_eq!(result.error.unwrap(), "Target 'other-svc' not found");
}

#[test]
fn registration_order_is_kept_across_routes() {
    let mut engine = RustRoutingEngine::new();
    engine.register_route("svc", "adapter-1");
    engine.register_route("svc", "adapter-2");
    for _ in 0..5 {
        let result = engine.route(&message_for("svc"));
        assert!(result.success);
        assert_eq!(result.adapter_id.unwrap(), "adapter-1");
    }
    let (total, errors, _avg) = metrics_entry(&engine, "adapter-1").unwrap();
    assert_eq!(total, 5);
    assert_eq!(errors, 0);
    assert!(metrics_entry(&engine, "adapter-2").is_none());
}

#[test]
fn scenario_two_adapters_and_missing_target() {
    let mut engine = RustRoutingEngine::new();
    engine.register_route("svc-a", "adapter-1");
    engine.register_route("svc-a", "adapter-2");

    let ok = engine.route(&message_for("svc-a"));
    assert!(ok.success);
    assert_eq!(ok.adapter_id.unwrap(), "adapter-1");
    assert!(ok.error.is_none());

    let snapshot = engine.get_metrics();
    assert_eq!(snapshot.len(), 1);
    let (total, errors, _avg) = metrics_entry(&engine, "adapter-1").unwrap();
    assert_eq!(total, 1);
    assert_eq!(errors, 0);

    let missing = engine.route(&message_for("svc-b"));
    assert!(!missing.success);
    assert!(missing.adapter_id.is_none());
    assert_eq!(missing.error.unwrap(), "Target 'svc-b' not found");
}

#[test]
fn interleaved_registrations_count_exactly() {
    let mut engine = RustRoutingEngine::new();
    engine.register_route("svc-a", "adapter-a");
    let mut routed_to_a = 0u64;
    for i in 0..4 {
        let result = engine.route(&message_for("svc-a"));
        assert!(result.success);
        routed_to_a += 1;
        engine.register_route(&format!("svc-{}", i), &format!("adapter-{}", i));
    }
    let (total, _errors, _avg) = metrics_entry(&engine, "adapter-a").unwrap();
    assert_eq!(total, routed_to_a);
    for i in 0..4 {
        assert!(metrics_entry(&engine, &format!("adapter-{}", i)).is_none());
    }
}

#[test]
fn message_metadata_is_carried_opaquely() {
    let mut engine = RustRoutingEngine::new();
    engine.register_route("svc", "adapter-1");
    let mut meta = std::collections::HashMap::new();
    meta.insert("trace".to_string(), serde_json::Value::Bool(false));
    let msg = Message {
        source: "client".to_string(),
        target: "svc".to_string(),
        payload: serde_json::Value::Null,
        meta: Some(meta),
    };
    let result = engine.route(&msg);
    assert!(result.success);
    assert_eq!(result.adapter_id.unwrap(), "adapter-1");
}
