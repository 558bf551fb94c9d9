use boopsynth::patch::{Patch, PatchError, Wire};

fn patch_of(nodes: &[&str], edges: &[(&str, &str)]) -> Patch<u32> {
    let mut p: Patch<u32> = Patch::new();
    for (k, n) in nodes.iter().enumerate() {
        p.insert_node(n.to_string(), k as u32);
    }
    for (a, b) in edges {
        p.add_edge(a.to_string(), b.to_string());
    }
    p
}

#[test]
fn constant_node_to_output() {
    let p = patch_of(&["a"], &[("a", "out")]);
    assert_eq!(
        p.create_net(),
        Ok(vec![Wire::GlobalToOutput { global: 0 }, Wire::NodeToOutput { node: 0 }])
    );
}

#[test]
fn freq_straight_to_output() {
    let p = patch_of(&[], &[("freq", "out")]);
    assert_eq!(
        p.create_net(),
        Ok(vec![Wire::GlobalToOutput { global: 0 }, Wire::GlobalToOutput { global: 0 }])
    );
}

#[test]
fn ctl_to_output_overrides_fallback() {
    let p = patch_of(&[], &[("ctl", "out")]);
    assert_eq!(
        p.create_net(),
        Ok(vec![Wire::GlobalToOutput { global: 0 }, Wire::GlobalToOutput { global: 1 }])
    );
}

#[test]
fn globals_and_nodes_are_wired() {
    let p = patch_of(&["osc", "env", "mix"], &[("freq", "osc"), ("ctl", "env:0"), ("osc", "mix:0"), ("env:0", "mix:1"), ("mix", "out")]);
    assert_eq!(
        p.create_net(),
        Ok(vec![
            Wire::GlobalToOutput { global: 0 },
            Wire::GlobalToInput { global: 0, node: 0, channel: 0 },
            Wire::GlobalToInput { global: 1, node: 1, channel: 0 },
            Wire::NodeToInput { node: 2, channel: 0, source: 0, source_channel: 0 },
            Wire::NodeToInput { node: 2, channel: 1, source: 1, source_channel: 0 },
            Wire::NodeToOutput { node: 2 },
        ])
    );
}

#[test]
fn undeclared_node_edges_are_dropped() {
    let p = patch_of(&["a"], &[("ghost", "out"), ("a", "out"), ("freq", "nowhere")]);
    assert_eq!(
        p.create_net(),
        Ok(vec![Wire::GlobalToOutput { global: 0 }, Wire::NodeToOutput { node: 0 }])
    );
    assert_eq!(p.branch_reprs(), Ok(vec!["a-->out".to_string()]));
}

#[test]
fn bad_port_fails_compilation() {
    let p = patch_of(&["a"], &[("a:x", "out")]);
    assert_eq!(p.create_net(), Err(PatchError::BadPort));
    assert_eq!(p.branch_reprs(), Err(PatchError::BadPort));
}

#[test]
fn insert_node_replaces_same_name() {
    let mut p: Patch<u32> = Patch::new();
    p.insert_node("a".to_string(), 1);
    p.insert_node("b".to_string(), 2);
    p.insert_node("a".to_string(), 3);
    assert_eq!(p.nodes.len(), 2);
    assert_eq!(p.nodes[0].1, 3);
    assert_eq!(p.find_node("b"), Some(1));
    assert_eq!(p.find_node("c"), None);
}

#[test]
fn branch_listing_of_chain_and_fork() {
    let p = patch_of(&["osc", "lp", "noise", "mix"], &[("freq", "osc"), ("osc", "lp"), ("lp", "mix:0"), ("noise", "mix:1"), ("mix", "out")]);
    assert_eq!(
        p.branch_reprs(),
        Ok(vec!["freq-->osc-->lp-->mix-->out".to_string(), "noise-->mix-->out".to_string()])
    );
}

#[test]
fn empty_patch_has_no_branches() {
    let p = patch_of(&[], &[]);
    assert_eq!(p.branch_reprs(), Ok(vec![]));
    assert_eq!(p.create_net(), Ok(vec![Wire::GlobalToOutput { global: 0 }]));
}

#[test]
fn cycle_into_output_is_an_error() {
    let p = patch_of(&["a", "b"], &[("a", "b"), ("b", "a"), ("b", "out")]);
    assert_eq!(p.branch_reprs(), Err(PatchError::Cycle));
    assert!(p.create_net().is_ok());
}
