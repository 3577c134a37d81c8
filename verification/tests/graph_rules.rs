use ai_application_factory::error::AppError;
use ai_application_factory::graph::{ensure_acyclic_edge, GraphEdge};

fn edge(id: &str, source: &str, target: &str) -> GraphEdge {
    GraphEdge {
        id: id.to_owned(),
        source_node_id: source.to_owned(),
        target_node_id: target.to_owned(),
    }
}

#[test]
fn rejects_a_manual_edge_that_closes_a_cycle() {
    let edges = vec![edge("ab", "a", "b"), edge("bc", "b", "c")];
    assert!(ensure_acyclic_edge(&edges, None, "c", "a").is_err());
    assert!(ensure_acyclic_edge(&edges, None, "a", "c").is_ok());
}

#[test]
fn an_edge_to_its_own_node_is_rejected() {
    let edges = vec![edge("ab", "a", "b")];
    match ensure_acyclic_edge(&edges, None, "a", "a") {
        Err(AppError::BadRequest(message)) => assert_eq!(message, "选项不能连接到自身节点"),
        _ => panic!("self edge must be rejected"),
    }
}

#[test]
fn a_cycle_is_reported_with_the_graph_rule() {
    let edges = vec![edge("ab", "a", "b"), edge("bc", "b", "c"), edge("cd", "c", "d")];
    match ensure_acyclic_edge(&edges, None, "d", "a") {
        Err(AppError::BadRequest(message)) => {
            assert_eq!(message, "此连接会形成循环，互动游戏图谱必须保持有向无环图")
        }
        _ => panic!("cycle must be rejected"),
    }
}

#[test]
fn the_rewired_edge_does_not_count_against_its_new_endpoints() {
    // b -> a would close a cycle through ab, unless ab itself is the edge being rewired.
    let edges = vec![edge("ab", "a", "b")];
    assert!(ensure_acyclic_edge(&edges, None, "b", "a").is_err());
    assert!(ensure_acyclic_edge(&edges, Some("ab"), "b", "a").is_ok());
}

#[test]
fn branches_that_merge_stay_acyclic() {
    let edges = vec![
        edge("s1", "start", "left"),
        edge("s2", "start", "right"),
        edge("l", "left", "end"),
    ];
    assert!(ensure_acyclic_edge(&edges, None, "right", "end").is_ok());
    assert!(ensure_acyclic_edge(&edges, None, "end", "start").is_err());
}
