use agent_workbench::error::CoreError;
use agent_workbench::graph::{demo_two_task_yaml, validate_graph};
use agent_workbench::types::{ArtifactRef, TaskDepEdge, TaskGraph, TaskSpec};

fn text(v: &serde_yaml::Value, key: &str) -> Option<String> {
    v.get(key).and_then(|x| x.as_str()).map(|s| s.to_string())
}

fn artifacts(v: Option<&serde_yaml::Value>) -> Vec<ArtifactRef> {
    let mut out = Vec::new();
    if let Some(seq) = v.and_then(|x| x.as_sequence()) {
        for a in seq {
            out.push(ArtifactRef {
                id: text(a, "id").unwrap(),
                path: text(a, "path").unwrap(),
                description: text(a, "description"),
            });
        }
    }
    out
}

/// Reads a task graph the way the YAML planner input is read.
fn graph_from_yaml(yaml: &str) -> TaskGraph {
    let doc: serde_yaml::Value = serde_yaml::from_str(yaml).unwrap();
    let mut tasks = Vec::new();
    for t in doc.get("tasks").and_then(|x| x.as_sequence()).unwrap() {
        tasks.push(TaskSpec {
            id: text(t, "id").unwrap(),
            title: text(t, "title").unwrap(),
            prompt: text(t, "prompt").unwrap(),
            gate_command: text(t, "gate_command"),
            produces: artifacts(t.get("produces")),
            allow_inplace: t.get("allow_inplace").and_then(|x| x.as_bool()).unwrap_or(false),
        });
    }
    let mut deps = Vec::new();
    if let Some(seq) = doc.get("deps").and_then(|x| x.as_sequence()) {
        for d in seq {
            deps.push(TaskDepEdge {
                from: text(d, "from").unwrap(),
                to: text(d, "to").unwrap(),
                artifacts: artifacts(d.get("artifacts")),
            });
        }
    }
    TaskGraph { name: text(&doc, "name").unwrap(), tasks, deps }
}

fn task(id: &str) -> TaskSpec {
    TaskSpec {
        id: id.to_string(),
        title: id.to_string(),
        prompt: "p".to_string(),
        gate_command: None,
        produces: vec![],
        allow_inplace: false,
    }
}

fn edge(from: &str, to: &str) -> TaskDepEdge {
    TaskDepEdge { from: from.to_string(), to: to.to_string(), artifacts: vec![] }
}

fn invalid_message(g: &TaskGraph) -> String {
    match validate_graph(g) {
        Err(CoreError::InvalidGraph(m)) => m,
        other => panic!("expected an invalid graph, got {other:?}"),
    }
}

#[test]
fn parses_demo_yaml() {
    let g = graph_from_yaml(demo_two_task_yaml());
    validate_graph(&g).unwrap();
    assert_eq!(g.tasks.len(), 2);
    assert_eq!(g.deps.len(), 1);
    assert_eq!(g.deps[0].artifacts[0].id, "fixed_lib");
}

#[test]
fn rejects_cycle() {
    let yaml = r#"
name: c
tasks:
  - id: A
    title: a
    prompt: p
  - id: B
    title: b
    prompt: p
deps:
  - from: A
    to: B
    artifacts: []
  - from: B
    to: A
    artifacts: []
"#;
    assert!(validate_graph(&graph_from_yaml(yaml)).is_err());
}

#[test]
fn empty_graph_is_rejected() {
    let g = TaskGraph { name: "n".to_string(), tasks: vec![], deps: vec![] };
    assert_eq!(invalid_message(&g), "no tasks");
}

#[test]
fn duplicate_task_id_is_rejected() {
    let g = TaskGraph { name: "n".to_string(), tasks: vec![task("A"), task("A")], deps: vec![] };
    assert_eq!(invalid_message(&g), "duplicate task id");
}

#[test]
fn unknown_dependency_endpoints_are_rejected() {
    let g = TaskGraph { name: "n".to_string(), tasks: vec![task("A")], deps: vec![edge("X", "A")] };
    assert_eq!(invalid_message(&g), "dep.from unknown: X");
    let g = TaskGraph { name: "n".to_string(), tasks: vec![task("A")], deps: vec![edge("A", "Y")] };
    assert_eq!(invalid_message(&g), "dep.to unknown: Y");
}

#[test]
fn self_dependency_is_rejected() {
    let g = TaskGraph { name: "n".to_string(), tasks: vec![task("A")], deps: vec![edge("A", "A")] };
    assert_eq!(invalid_message(&g), "self-dep");
}

#[test]
fn cycle_error_names_a_task_on_the_cycle() {
    let g = TaskGraph {
        name: "n".to_string(),
        tasks: vec![task("A"), task("B"), task("C")],
        deps: vec![edge("A", "B"), edge("B", "C"), edge("C", "B")],
    };
    let m = invalid_message(&g);
    assert!(m == "cycle at B" || m == "cycle at C", "{m}");
}

#[test]
fn diamond_is_accepted() {
    let g = TaskGraph {
        name: "n".to_string(),
        tasks: vec![task("A"), task("B"), task("C"), task("D")],
        deps: vec![edge("A", "B"), edge("A", "C"), edge("B", "D"), edge("C", "D")],
    };
    assert!(validate_graph(&g).is_ok());
}
