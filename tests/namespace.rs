use mz_orchestrator::{
    CpuLimit, MemoryLimit, Reconcile, ServiceConfig, ServicePort, ServiceRegistry,
};

fn config(image: &str, scale: usize) -> ServiceConfig {
    ServiceConfig {
        image: image.to_string(),
        ports: vec![ServicePort { name: "http".to_string(), port_hint: 8080 }],
        memory_limit: Some(MemoryLimit(1 << 30)),
        cpu_limit: Some(CpuLimit::decode_millicpus(1500).unwrap()),
        scale,
        labels: vec![
            ("team".to_string(), "web".to_string()),
            ("tier".to_string(), "front".to_string()),
        ],
        availability_zone: None,
    }
}

fn sorted(mut v: Vec<String>) -> Vec<String> {
    v.sort();
    v
}

#[test]
fn ensure_twice_is_idempotent() {
    let mut ns = ServiceRegistry::new();
    assert_eq!(ns.ensure_service("frontend", config("web:1", 2)), Reconcile::Create);
    assert_eq!(ns.ensure_service("frontend", config("web:1", 2)), Reconcile::Unchanged);
    assert_eq!(ns.list_services(), vec!["frontend".to_string()]);
}

#[test]
fn ensure_with_new_config_updates() {
    let mut ns = ServiceRegistry::new();
    ns.ensure_service("frontend", config("web:1", 2));
    assert_eq!(ns.ensure_service("frontend", config("web:2", 2)), Reconcile::Update);
    assert_eq!(ns.ensure_service("frontend", config("web:2", 3)), Reconcile::Update);
    let mut zoned = config("web:2", 3);
    zoned.availability_zone = Some("us-east-1a".to_string());
    assert_eq!(ns.ensure_service("frontend", zoned), Reconcile::Update);
    assert_eq!(ns.list_services().len(), 1);
}

#[test]
fn label_order_does_not_matter() {
    let mut ns = ServiceRegistry::new();
    ns.ensure_service("frontend", config("web:1", 2));
    let mut c = config("web:1", 2);
    c.labels.reverse();
    assert_eq!(ns.ensure_service("frontend", c.clone()), Reconcile::Unchanged);
    c.labels[0].1 = "other".to_string();
    assert_eq!(ns.ensure_service("frontend", c), Reconcile::Update);
}

#[test]
fn config_matches() {
    let a = config("web:1", 2);
    assert!(a.matches(&config("web:1", 2)));
    let mut b = config("web:1", 2);
    b.cpu_limit = None;
    assert!(!a.matches(&b));
    let mut c = config("web:1", 2);
    c.ports[0].port_hint = 8081;
    assert!(!a.matches(&c));
    let mut d = config("web:1", 2);
    d.memory_limit = Some(MemoryLimit(1));
    assert!(!a.matches(&d));
}

#[test]
fn drop_present_and_absent() {
    let mut ns = ServiceRegistry::new();
    assert!(!ns.drop_service("ghost"));
    ns.ensure_service("a", config("img", 1));
    ns.ensure_service("b", config("img", 1));
    ns.ensure_service("c", config("img", 1));
    assert!(ns.drop_service("b"));
    assert!(!ns.drop_service("b"));
    assert_eq!(sorted(ns.list_services()), vec!["a".to_string(), "c".to_string()]);
    assert_eq!(ns.ensure_service("b", config("img", 1)), Reconcile::Create);
}

#[test]
fn empty_namespace_lists_nothing() {
    let ns = ServiceRegistry::new();
    assert!(ns.list_services().is_empty());
}
