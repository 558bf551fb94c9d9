use fundsp::hacker::{constant, sine, AudioUnit, Net, NodeId};

use boopsynth::network::{compile_into, patch_shell};
use boopsynth::patch::{Patch, PatchError};

fn compile(nodes: Vec<(&str, Box<dyn AudioUnit>)>, edges: &[(&str, &str)]) -> Result<Net, PatchError> {
    let mut patch: Patch<()> = Patch::new();
    let mut net = patch_shell();
    let mut ids: Vec<NodeId> = Vec::new();
    for (name, unit) in nodes {
        patch.insert_node(name.to_string(), ());
        ids.push(net.push(unit));
    }
    for (a, b) in edges {
        patch.add_edge(a.to_string(), b.to_string());
    }
    compile_into(&patch, &mut net, &ids)?;
    Ok(net)
}

fn output_for(net: &mut Net, freq: f32, ctl: f32) -> f32 {
    let mut out = [0.0f32; 1];
    net.tick(&[freq, ctl], &mut out);
    out[0]
}

#[test]
fn constant_patch_outputs_constant() {
    let mut net = compile(vec![("a", Box::new(constant(1.0)))], &[("a", "out")]).unwrap();
    assert_eq!(net.inputs(), 2);
    assert_eq!(net.outputs(), 1);
    for (f, c) in [(0.0, 0.0), (440.0, 1.0), (-3.5, 7.0)] {
        assert_eq!(output_for(&mut net, f, c), 1.0);
    }
}

#[test]
fn freq_patch_passes_input_zero() {
    let mut net = compile(vec![], &[("freq", "out")]).unwrap();
    for (f, c) in [(0.0, 2.0), (440.0, 1.0), (-3.5, 7.0)] {
        assert_eq!(output_for(&mut net, f, c), f);
    }
}

#[test]
fn empty_patch_falls_back_to_freq() {
    let mut net = compile(vec![], &[]).unwrap();
    assert_eq!(output_for(&mut net, 5.0, 9.0), 5.0);
}

#[test]
fn ctl_patch_passes_input_one() {
    let mut net = compile(vec![], &[("ctl", "out")]).unwrap();
    assert_eq!(output_for(&mut net, 5.0, 9.0), 9.0);
}

#[test]
fn dangling_edge_compiles() {
    let mut net = compile(vec![("a", Box::new(constant(2.0)))], &[("ghost", "out"), ("a", "out")]).unwrap();
    assert_eq!(output_for(&mut net, 5.0, 9.0), 2.0);
}

#[test]
fn missing_channel_is_rejected() {
    let r = compile(vec![("s", Box::new(sine()))], &[("freq", "s:3"), ("s", "out")]);
    assert!(matches!(r, Err(PatchError::BadChannel)));
}

#[test]
fn node_feeding_itself_is_rejected() {
    let r = compile(vec![("s", Box::new(sine()))], &[("s", "s")]);
    assert!(matches!(r, Err(PatchError::BadChannel)));
}

#[test]
fn malformed_port_is_rejected_before_wiring() {
    let r = compile(vec![("s", Box::new(sine()))], &[("s:zz", "out")]);
    assert!(matches!(r, Err(PatchError::BadPort)));
}

#[test]
fn compiled_routes_are_the_ones_planned() {
    let net = compile(
        vec![("s", Box::new(sine())), ("c", Box::new(constant(0.5)))],
        &[("ctl", "s"), ("c", "out")],
    )
    .unwrap();
    let ids: Vec<NodeId> = net.ids().cloned().collect();
    let s = ids.iter().copied().find(|id| net.inputs_in(*id) == 1).unwrap();
    assert!(matches!(net.source(s, 0), fundsp::net::Source::Global(1)));
    assert!(matches!(net.output_source(0), fundsp::net::Source::Local(_, 0)));
}
