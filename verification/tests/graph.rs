use pmp_iq::graph::{finish, focus, AppRow, DependencyRow, GraphBuilder, GraphScope, InfraRow, DEFAULT_LIMIT};

const CENTER: u128 = 0x67e5504410b1426f9247bb680e5fe0c8;
const OTHER: u128 = 0x1;
const FAR: u128 = 0xffff_0000_0000_0000_0000_0000_0000_0002;

#[test]
fn scope_clamps_limit() {
    assert_eq!(GraphScope::new(None, Some(99999)).limit, 2000);
    assert_eq!(GraphScope::new(None, None).limit, DEFAULT_LIMIT);
    assert_eq!(GraphScope::new(None, Some(-5)).limit, 1);
}

#[test]
fn focus_keeps_only_center_neighbourhood() {
    let mut builder = GraphBuilder::new();
    builder.add_node(CENTER_ID.to_string(), "c".into(), "application", None);
    builder.add_node(OTHER_ID.to_string(), "o".into(), "application", None);
    builder.add_node(FAR_ID.to_string(), "f".into(), "application", None);
    builder.add_edge(CENTER_ID.to_string(), OTHER_ID.to_string(), "http");
    builder.add_edge(FAR_ID.to_string(), FAR_ID.to_string(), "http");

    let g = focus(builder, Some(CENTER));
    assert_eq!(g.nodes.len(), 2);
    assert_eq!(g.edges.len(), 1);
}

const CENTER_ID: &str = "67e55044-10b1-426f-9247-bb680e5fe0c8";
const OTHER_ID: &str = "00000000-0000-0000-0000-000000000001";
const FAR_ID: &str = "ffff0000-0000-0000-0000-000000000002";

#[test]
fn nodes_are_added_once_and_edges_are_named() {
    let mut b = GraphBuilder::new();
    b.add_node("n1".into(), "one".into(), "application", Some("api".into()));
    b.add_node("n1".into(), "again".into(), "external", None);
    b.add_edge("n1".into(), "n2".into(), "http");
    let g = focus(b, None);
    assert_eq!(g.nodes.len(), 1);
    assert_eq!(g.nodes[0].label, "one");
    assert_eq!(g.nodes[0].sub.as_deref(), Some("api"));
    assert_eq!(g.edges[0].id, "n1->n2:http");
}

#[test]
fn assembles_applications_infrastructure_and_dependencies() {
    let mut b = GraphBuilder::new();
    b.add_applications(&vec![
        AppRow { id: CENTER, name: "api".into(), app_type: Some("service".into()) },
        AppRow { id: OTHER, name: "billing".into(), app_type: None },
    ]);
    b.add_infrastructure(&vec![
        InfraRow { infra_id: 7, name: "pg".into(), kind: "database".into(), application_id: CENTER },
        InfraRow { infra_id: 8, name: "redis".into(), kind: "cache".into(), application_id: FAR },
    ]);
    b.add_dependencies(&vec![
        DependencyRow { source_app_id: CENTER, target_name: "billing".into(), kind: Some("http".into()) },
        DependencyRow { source_app_id: CENTER, target_name: "stripe".into(), kind: None },
        DependencyRow { source_app_id: FAR, target_name: "billing".into(), kind: None },
    ]);
    let r = finish(b, &GraphScope::new(None, Some(2)), 3);
    assert!(r.truncated);
    assert_eq!(r.total_applications, 3);
    let ids: Vec<&str> = r.graph.nodes.iter().map(|n| n.id.as_str()).collect();
    assert_eq!(
        ids,
        vec![
            "67e55044-10b1-426f-9247-bb680e5fe0c8",
            "00000000-0000-0000-0000-000000000001",
            "infra:00000000-0000-0000-0000-000000000007",
            "ext:stripe",
        ]
    );
    let edges: Vec<&str> = r.graph.edges.iter().map(|e| e.id.as_str()).collect();
    assert_eq!(
        edges,
        vec![
            "67e55044-10b1-426f-9247-bb680e5fe0c8->infra:00000000-0000-0000-0000-000000000007:database",
            "67e55044-10b1-426f-9247-bb680e5fe0c8->00000000-0000-0000-0000-000000000001:http",
            "67e55044-10b1-426f-9247-bb680e5fe0c8->ext:stripe:depends",
        ]
    );
    assert_eq!(r.graph.nodes[3].kind, "external");
}

#[test]
fn focus_on_unknown_center_is_empty() {
    let mut b = GraphBuilder::new();
    b.add_node("a".into(), "a".into(), "application", None);
    b.add_node("b".into(), "b".into(), "application", None);
    let g = focus(b, Some(FAR));
    assert!(g.nodes.is_empty());
    assert!(g.edges.is_empty());
}
