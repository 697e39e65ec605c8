use mz_orchestrator::{NamespaceTable, Reconcile, ServiceConfig};

fn config(image: &str) -> ServiceConfig {
    ServiceConfig {
        image: image.to_string(),
        ports: vec![],
        memory_limit: None,
        cpu_limit: None,
        scale: 1,
        labels: vec![],
        availability_zone: None,
    }
}

#[test]
fn same_namespace_same_handle() {
    let mut orch = NamespaceTable::new();
    let a = orch.namespace("cluster");
    let b = orch.namespace("storage");
    assert_ne!(a, b);
    assert_eq!(orch.namespace("cluster"), a);
    assert_eq!(orch.namespace("storage"), b);
}

#[test]
fn handles_share_services() {
    let mut orch = NamespaceTable::new();
    let first = orch.namespace("cluster");
    assert_eq!(orch.ensure_service(first, "s1", config("img")), Reconcile::Create);
    let again = orch.namespace("cluster");
    assert_eq!(orch.ensure_service(again, "s1", config("img")), Reconcile::Unchanged);
    assert_eq!(orch.list_services(again), vec!["s1".to_string()]);
}

#[test]
fn namespaces_are_isolated() {
    let mut orch = NamespaceTable::new();
    let a = orch.namespace("a");
    let b = orch.namespace("b");
    orch.ensure_service(a, "svc", config("img"));
    assert!(orch.list_services(b).is_empty());
    assert_eq!(orch.ensure_service(b, "svc", config("img")), Reconcile::Create);
    assert!(orch.drop_service(a, "svc"));
    assert!(!orch.drop_service(a, "svc"));
    assert_eq!(orch.list_services(b), vec!["svc".to_string()]);
}
