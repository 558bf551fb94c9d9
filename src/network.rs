//! Assembly of a fundsp network from a wiring plan. The nodes are installed
//! beforehand (their primitives carry floating-point parameters); here each
//! connection is checked against the nodes' channel counts and made.
use vstd::prelude::*;
use fundsp::net::{Net, NodeId, Source};
use crate::patch::{plan, ports_parse, Patch, PatchError, Wire};

verus! {

#[verifier::external_type_specification]
#[verifier::external_body]
pub struct ExNet(Net);

#[verifier::external_type_specification]
#[verifier::external_body]
pub struct ExNodeId(NodeId);

/// The nodes that a network holds: for the value of each node ID, its
/// number of inputs and of outputs.
pub uninterp spec fn net_nodes(n: Net) -> Map<u64, (nat, nat)>;

/// The number of global inputs and of global outputs of a network.
pub uninterp spec fn net_io(n: Net) -> (nat, nat);

/// The source of each global output of a network, in channel order.
/// A source is `(0, 0, 0)` for silence, `(1, 0, i)` for global input `i`,
/// and `(2, v, j)` for output `j` of the node whose ID wraps `v`.
pub uninterp spec fn net_output_sources(n: Net) -> Map<nat, (nat, u64, nat)>;

/// The sources of the inputs of each node of a network: for the value of
/// each node ID, the source of each input channel, encoded as for
/// `net_output_sources`.
pub uninterp spec fn net_input_sources(n: Net) -> Map<u64, Map<nat, (nat, u64, nat)>>;

/// The value that a node ID wraps.
pub uninterp spec fn id_value(id: NodeId) -> u64;

pub open spec fn zero_src() -> (nat, u64, nat) {
    (0nat, 0u64, 0nat)
}

pub open spec fn global_src(i: nat) -> (nat, u64, nat) {
    (1nat, 0u64, i)
}

pub open spec fn local_src(v: u64, j: nat) -> (nat, u64, nat) {
    (2nat, v, j)
}

/// The output sources after the outputs of the node whose ID wraps `v`, with
/// `outs` outputs, are piped to all `n` global outputs: output `c` takes node
/// output `c % outs`, or silence when the node has no outputs.
pub open spec fn piped(n: nat, v: u64, outs: nat) -> Map<nat, (nat, u64, nat)> {
    Map::new(|c: nat| c < n, |c: nat| if outs > 0 { local_src(v, c % outs) } else { zero_src() })
}

/// The input sources after input `channel` of the node whose ID wraps `v`
/// is fed from `src`.
pub open spec fn fed(ins: Map<u64, Map<nat, (nat, u64, nat)>>, v: u64, channel: nat, src: (nat, u64, nat))
    -> Map<u64, Map<nat, (nat, u64, nat)>> {
    ins.insert(v, ins[v].insert(channel, src))
}

/// Relies on fundsp's `Net::new`: a network with the given numbers of
/// global inputs and outputs and no nodes.
#[verifier::external_body]
fn new_net(inputs: usize, outputs: usize) -> (r: Net)
    ensures
        net_io(r).0 == inputs,
        net_io(r).1 == outputs,
        net_nodes(r).dom().is_empty(),
        net_input_sources(r).dom().is_empty(),
        net_output_sources(r) == Map::new(|c: nat| c < outputs, |c: nat| zero_src()),
{
    Net::new(inputs, outputs)
}

/// Relies on fundsp's `Net::contains`: whether the node is in the network.
#[verifier::external_body]
fn contains(net: &Net, id: NodeId) -> (r: bool)
    ensures
        r == net_nodes(*net).contains_key(id_value(id)),
{
    net.contains(id)
}

/// Relies on fundsp's `Net::inputs_in`: the node's number of inputs.
#[verifier::external_body]
fn inputs_in(net: &Net, id: NodeId) -> (r: usize)
    requires
        net_nodes(*net).contains_key(id_value(id)),
    ensures
        r as nat == net_nodes(*net)[id_value(id)].0,
{
    net.inputs_in(id)
}

/// Relies on fundsp's `Net::outputs_in`: the node's number of outputs.
#[verifier::external_body]
fn outputs_in(net: &Net, id: NodeId) -> (r: usize)
    requires
        net_nodes(*net).contains_key(id_value(id)),
    ensures
        r as nat == net_nodes(*net)[id_value(id)].1,
{
    net.outputs_in(id)
}

/// Relies on the derived `==` of fundsp's `NodeId`, which compares the
/// wrapped values.
#[verifier::external_body]
fn same_node(a: NodeId, b: NodeId) -> (r: bool)
    ensures
        r == (id_value(a) == id_value(b)),
{
    a == b
}

/// Relies on fundsp's `Net::pass_through`: routes a global input to a global
/// output; the nodes are untouched.
#[verifier::external_body]
fn pass_through(net: &mut Net, input: usize, output: usize)
    requires
        input < net_io(*old(net)).0,
        output < net_io(*old(net)).1,
    ensures
        net_nodes(*final(net)) == net_nodes(*old(net)),
        net_io(*final(net)) == net_io(*old(net)),
        net_input_sources(*final(net)) == net_input_sources(*old(net)),
        net_output_sources(*final(net)) == net_output_sources(*old(net)).insert(output as nat, global_src(input as nat)),
{
    net.pass_through(input, output)
}

/// Relies on fundsp's `Net::set_source` with `Source::Global`: feeds an
/// input of a node from a global input; the nodes keep their channels.
#[verifier::external_body]
fn set_source_global(net: &mut Net, node: NodeId, channel: usize, global: usize)
    requires
        net_nodes(*old(net)).contains_key(id_value(node)),
        channel < net_nodes(*old(net))[id_value(node)].0,
        global < net_io(*old(net)).0,
    ensures
        net_nodes(*final(net)) == net_nodes(*old(net)),
        net_io(*final(net)) == net_io(*old(net)),
        net_output_sources(*final(net)) == net_output_sources(*old(net)),
        net_input_sources(*final(net)) == fed(net_input_sources(*old(net)), id_value(node), channel as nat, global_src(global as nat)),
{
    net.set_source(node, channel, Source::Global(global))
}

/// Relies on fundsp's `Net::set_source` with `Source::Local`: feeds an
/// input of a node from an output of another node; the nodes keep their
/// channels.
#[verifier::external_body]
fn set_source_local(net: &mut Net, node: NodeId, channel: usize, source: NodeId, source_channel: usize)
    requires
        net_nodes(*old(net)).contains_key(id_value(node)),
        net_nodes(*old(net)).contains_key(id_value(source)),
        id_value(node) != id_value(source),
        channel < net_nodes(*old(net))[id_value(node)].0,
        source_channel < net_nodes(*old(net))[id_value(source)].1,
    ensures
        net_nodes(*final(net)) == net_nodes(*old(net)),
        net_io(*final(net)) == net_io(*old(net)),
        net_output_sources(*final(net)) == net_output_sources(*old(net)),
        net_input_sources(*final(net)) == fed(net_input_sources(*old(net)), id_value(node), channel as nat,
            local_src(id_value(source), source_channel as nat)),
{
    net.set_source(node, channel, Source::Local(source, source_channel))
}

/// Relies on fundsp's `Net::pipe_output`: routes the outputs of a node to
/// the global outputs; the nodes are untouched.
#[verifier::external_body]
fn pipe_output(net: &mut Net, node: NodeId)
    requires
        net_nodes(*old(net)).contains_key(id_value(node)),
    ensures
        net_nodes(*final(net)) == net_nodes(*old(net)),
        net_io(*final(net)) == net_io(*old(net)),
        net_input_sources(*final(net)) == net_input_sources(*old(net)),
        net_output_sources(*final(net)) == piped(net_io(*old(net)).1, id_value(node), net_nodes(*old(net))[id_value(node)].1),
{
    net.pipe_output(node)
}

/// An empty network with the two global inputs (frequency, gate) and the
/// one output of a compiled patch.
pub fn patch_shell() -> (r: Net)
    ensures
        net_io(r) == (2nat, 1nat),
        net_nodes(r).dom().is_empty(),
        net_input_sources(r).dom().is_empty(),
        net_output_sources(r) == Map::new(|c: nat| c < 1, |c: nat| zero_src()),
{
    new_net(2, 1)
}

/// The sources of a network's outputs and of its nodes' inputs after the
/// connection `w` is made, node `k` of the plan being the node with ID
/// `ids[k]`, in a network with `n_out` global outputs and the given nodes.
pub open spec fn apply_wire(
    srcs: (Map<nat, (nat, u64, nat)>, Map<u64, Map<nat, (nat, u64, nat)>>),
    nodes: Map<u64, (nat, nat)>,
    n_out: nat,
    ids: Seq<NodeId>,
    w: Wire,
) -> (Map<nat, (nat, u64, nat)>, Map<u64, Map<nat, (nat, u64, nat)>>) {
    match w {
        Wire::GlobalToOutput { global } => (srcs.0.insert(0, global_src(global as nat)), srcs.1),
        Wire::GlobalToInput { global, node, channel } =>
            (srcs.0, fed(srcs.1, id_value(ids[node as int]), channel as nat, global_src(global as nat))),
        Wire::NodeToOutput { node } =>
            (piped(n_out, id_value(ids[node as int]), nodes[id_value(ids[node as int])].1), srcs.1),
        Wire::NodeToInput { node, channel, source, source_channel } =>
            (srcs.0, fed(srcs.1, id_value(ids[node as int]), channel as nat,
                local_src(id_value(ids[source as int]), source_channel as nat))),
    }
}

/// The sources after the connections `ws` are made in order.
pub open spec fn apply_wires(
    srcs: (Map<nat, (nat, u64, nat)>, Map<u64, Map<nat, (nat, u64, nat)>>),
    nodes: Map<u64, (nat, nat)>,
    n_out: nat,
    ids: Seq<NodeId>,
    ws: Seq<Wire>,
) -> (Map<nat, (nat, u64, nat)>, Map<u64, Map<nat, (nat, u64, nat)>>)
    decreases ws.len(),
{
    if ws.len() == 0 {
        srcs
    } else {
        apply_wire(apply_wires(srcs, nodes, n_out, ids, ws.drop_last()), nodes, n_out, ids, ws.last())
    }
}

pub open spec fn sources(n: Net) -> (Map<nat, (nat, u64, nat)>, Map<u64, Map<nat, (nat, u64, nat)>>) {
    (net_output_sources(n), net_input_sources(n))
}

/// The connection can be made in a network with the given nodes and global
/// channels, node `k` of the plan being the node with ID `ids[k]`.
pub open spec fn wire_fits(nodes: Map<u64, (nat, nat)>, io: (nat, nat), ids: Seq<NodeId>, w: Wire) -> bool {
    let has = |k: usize| k < ids.len() && nodes.contains_key(id_value(ids[k as int]));
    match w {
        Wire::GlobalToOutput { global } => global < io.0 && 0 < io.1,
        Wire::GlobalToInput { global, node, channel } =>
            has(node) && global < io.0 && channel < nodes[id_value(ids[node as int])].0,
        Wire::NodeToOutput { node } => has(node),
        Wire::NodeToInput { node, channel, source, source_channel } =>
            has(node) && has(source)
            && id_value(ids[node as int]) != id_value(ids[source as int])
            && channel < nodes[id_value(ids[node as int])].0
            && source_channel < nodes[id_value(ids[source as int])].1,
    }
}

/// Whether a connection can be made in `net`.
fn check_wire(net: &Net, ids: &Vec<NodeId>, w: Wire) -> (r: bool)
    requires
        net_io(*net) == (2nat, 1nat),
    ensures
        r == wire_fits(net_nodes(*net), net_io(*net), ids@, w),
{
    let has = |k: usize| -> (b: bool)
        ensures b == (k < ids@.len() && net_nodes(*net).contains_key(id_value(ids@[k as int]))),
    {
        k < ids.len() && contains(net, ids[k])
    };
    match w {
        Wire::GlobalToOutput { global } => global < 2,
        Wire::GlobalToInput { global, node, channel } => {
            has(node) && global < 2 && channel < inputs_in(net, ids[node])
        },
        Wire::NodeToOutput { node } => has(node),
        Wire::NodeToInput { node, channel, source, source_channel } => {
            has(node) && has(source) && !same_node(ids[node], ids[source])
                && channel < inputs_in(net, ids[node])
                && source_channel < outputs_in(net, ids[source])
        },
    }
}

/// Makes the connections of `wires` in `net`, whose node `k` of the plan is
/// the node with ID `ids[k]`. Fails, before making any, with `BadChannel`
/// when one of them names a node that is not there, a channel that its node
/// does not have, or a node as its own source.
pub fn assemble(net: &mut Net, ids: &Vec<NodeId>, wires: &Vec<Wire>) -> (r: Result<(), PatchError>)
    requires
        net_io(*old(net)) == (2nat, 1nat),
    ensures
        net_nodes(*final(net)) == net_nodes(*old(net)),
        net_io(*final(net)) == net_io(*old(net)),
        r.is_ok() == forall|i: int| 0 <= i < wires@.len()
            ==> wire_fits(net_nodes(*old(net)), net_io(*old(net)), ids@, #[trigger] wires@[i]),
        r.is_err() ==> r == Err::<(), PatchError>(PatchError::BadChannel),
        r.is_err() ==> sources(*final(net)) == sources(*old(net)),
        r.is_ok() ==> sources(*final(net)) == apply_wires(sources(*old(net)), net_nodes(*old(net)), net_io(*old(net)).1, ids@, wires@),
{
    let mut k: usize = 0;
    while k < wires.len()
        invariant
            k <= wires@.len(),
            net_io(*net) == (2nat, 1nat),
            *net == *old(net),
            forall|i: int| 0 <= i < k ==> wire_fits(net_nodes(*net), net_io(*net), ids@, #[trigger] wires@[i]),
        decreases wires@.len() - k,
    {
        if !check_wire(net, ids, wires[k]) {
            return Err(PatchError::BadChannel);
        }
        k = k + 1;
    }
    let ghost nodes0 = net_nodes(*net);
    let mut k: usize = 0;
    while k < wires.len()
        invariant
            k <= wires@.len(),
            net_io(*net) == (2nat, 1nat),
            net_nodes(*net) == nodes0,
            nodes0 == net_nodes(*old(net)),
            net_io(*old(net)) == (2nat, 1nat),
            forall|i: int| 0 <= i < wires@.len() ==> wire_fits(nodes0, (2nat, 1nat), ids@, #[trigger] wires@[i]),
            sources(*net) == apply_wires(sources(*old(net)), nodes0, 1nat, ids@, wires@.take(k as int)),
        decreases wires@.len() - k,
    {
        let w = wires[k];
        assert(wires@.take(k + 1).drop_last() =~= wires@.take(k as int));
        assert(wire_fits(nodes0, (2nat, 1nat), ids@, wires@[k as int]));
        match w {
            Wire::GlobalToOutput { global } => pass_through(net, global, 0),
            Wire::GlobalToInput { global, node, channel } => set_source_global(net, ids[node], channel, global),
            Wire::NodeToOutput { node } => pipe_output(net, ids[node]),
            Wire::NodeToInput { node, channel, source, source_channel } => {
                set_source_local(net, ids[node], channel, ids[source], source_channel)
            },
        }
        k = k + 1;
    }
    assert(wires@.take(k as int) =~= wires@);
    Ok(())
}

/// Compiles `patch` into `net`, where the patch's node `k` has been
/// installed as the node with ID `ids[k]`: computes the wiring plan and
/// makes its connections. Fails with `BadPort` on a malformed port string,
/// and with `BadChannel` when a connection does not fit the installed nodes.
pub fn compile_into<N>(patch: &Patch<N>, net: &mut Net, ids: &Vec<NodeId>) -> (r: Result<(), PatchError>)
    requires
        patch.wf(),
        net_io(*old(net)) == (2nat, 1nat),
    ensures
        net_nodes(*final(net)) == net_nodes(*old(net)),
        net_io(*final(net)) == net_io(*old(net)),
        !ports_parse(patch.edge_view()) ==> r == Err::<(), PatchError>(PatchError::BadPort),
        ports_parse(patch.edge_view()) ==> (r.is_ok() == forall|i: int|
            0 <= i < plan(patch.names(), patch.edge_view()).len()
            ==> wire_fits(net_nodes(*old(net)), net_io(*old(net)), ids@, #[trigger] plan(patch.names(), patch.edge_view())[i])),
        r.is_err() ==> r == Err::<(), PatchError>(PatchError::BadPort) || r == Err::<(), PatchError>(PatchError::BadChannel),
        r.is_err() ==> sources(*final(net)) == sources(*old(net)),
        r.is_ok() ==> sources(*final(net)) == apply_wires(sources(*old(net)), net_nodes(*old(net)), net_io(*old(net)).1, ids@,
            plan(patch.names(), patch.edge_view())),
{
    let wires = patch.create_net()?;
    assemble(net, ids, &wires)
}

} // verus!
