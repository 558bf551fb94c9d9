//! Patches: named node descriptors and the edges that wire them, and their
//! compilation into a wiring plan for a network with two global inputs
//! (`freq`, `ctl`) and one output (`out`).
use vstd::prelude::*;
use vstd::string::*;
use crate::port::{port_of, parse_port};

verus! {

/// Why a patch could not be compiled or listed.
#[derive(Clone, Copy, Debug, PartialEq, Eq, Structural)]
pub enum PatchError {
    /// A port string whose channel suffix is not a number.
    BadPort,
    /// An external resource of a node (a sample file) could not be read.
    Resource,
    /// A node descriptor that has no primitive to install.
    Unimplemented,
    /// The edges leading back from the output form a cycle.
    Cycle,
    /// A connection names a channel that its node does not have, or feeds a
    /// node from itself.
    BadChannel,
}

/// One connection of the compiled network. Nodes are named by their position
/// in the patch's node list.
#[derive(Clone, Copy, Debug, PartialEq, Eq, Structural)]
pub enum Wire {
    /// Global input `global` feeds the network output.
    GlobalToOutput { global: usize },
    /// Global input `global` feeds input `channel` of `node`.
    GlobalToInput { global: usize, node: usize, channel: usize },
    /// The outputs of `node` feed the network output.
    NodeToOutput { node: usize },
    /// Output `source_channel` of `source` feeds input `channel` of `node`.
    NodeToInput { node: usize, channel: usize, source: usize, source_channel: usize },
}

pub open spec fn freq_name() -> Seq<char> {
    seq!['f', 'r', 'e', 'q']
}

pub open spec fn ctl_name() -> Seq<char> {
    seq!['c', 't', 'l']
}

pub open spec fn out_name() -> Seq<char> {
    seq!['o', 'u', 't']
}

/// A name that needs no node: one of the global inputs or the output.
pub open spec fn is_reserved(n: Seq<char>) -> bool {
    n == freq_name() || n == ctl_name() || n == out_name()
}

/// Position of the node called `n`, if there is one.
pub open spec fn lookup(names: Seq<Seq<char>>, n: Seq<char>) -> Option<nat> {
    if exists|i: int| 0 <= i < names.len() && names[i] == n {
        Some((choose|i: int| 0 <= i < names.len() && names[i] == n) as nat)
    } else {
        None
    }
}

/// The connection made by an edge from port `src` to port `snk`, or `None`
/// where the edge names a node that is not declared.
pub open spec fn wire_for(names: Seq<Seq<char>>, src: (Seq<char>, nat), snk: (Seq<char>, nat)) -> Option<Wire> {
    if src.0 == freq_name() && snk.0 == out_name() {
        Some(Wire::GlobalToOutput { global: 0 })
    } else if src.0 == ctl_name() && snk.0 == out_name() {
        Some(Wire::GlobalToOutput { global: 1 })
    } else if src.0 == freq_name() || src.0 == ctl_name() {
        let g: usize = if src.0 == freq_name() { 0 } else { 1 };
        match lookup(names, snk.0) {
            Some(j) => Some(Wire::GlobalToInput { global: g, node: j as usize, channel: snk.1 as usize }),
            None => None,
        }
    } else if snk.0 == out_name() {
        match lookup(names, src.0) {
            Some(i) => Some(Wire::NodeToOutput { node: i as usize }),
            None => None,
        }
    } else {
        match (lookup(names, src.0), lookup(names, snk.0)) {
            (Some(i), Some(j)) => Some(Wire::NodeToInput {
                node: j as usize,
                channel: snk.1 as usize,
                source: i as usize,
                source_channel: src.1 as usize,
            }),
            _ => None,
        }
    }
}

/// Every port string of the edges has a well-formed channel.
pub open spec fn ports_parse(edges: Seq<(Seq<char>, Seq<char>)>) -> bool {
    forall|i: int| 0 <= i < edges.len()
        ==> (#[trigger] port_of(edges[i].0)).is_some() && port_of(edges[i].1).is_some()
}

/// The wiring of a network: first global input 0 to the output as the
/// fallback route, then the connection of each edge in order.
pub open spec fn plan(names: Seq<Seq<char>>, edges: Seq<(Seq<char>, Seq<char>)>) -> Seq<Wire>
    decreases edges.len(),
{
    if edges.len() == 0 {
        seq![Wire::GlobalToOutput { global: 0 }]
    } else {
        let rest = plan(names, edges.drop_last());
        match wire_for(names, port_of(edges.last().0).unwrap(), port_of(edges.last().1).unwrap()) {
            Some(w) => rest.push(w),
            None => rest,
        }
    }
}

/// `s` holds exactly the characters of `t`.
pub fn same_text(s: &str, t: &str) -> (r: bool)
    ensures
        r == (s@ == t@),
{
    let n = s.unicode_len();
    if n != t.unicode_len() {
        return false;
    }
    let mut i: usize = 0;
    while i < n
        invariant
            i <= n,
            n == s@.len(),
            n == t@.len(),
            forall|j: int| 0 <= j < i ==> s@[j] == t@[j],
        decreases n - i,
    {
        if s.get_char(i) != t.get_char(i) {
            return false;
        }
        i = i + 1;
    }
    assert(s@ =~= t@);
    true
}

fn is_freq(s: &str) -> (r: bool)
    ensures
        r == (s@ == freq_name()),
{
    proof {
        reveal_strlit("freq");
    }
    assert("freq"@ =~= freq_name());
    same_text(s, "freq")
}

fn is_ctl(s: &str) -> (r: bool)
    ensures
        r == (s@ == ctl_name()),
{
    proof {
        reveal_strlit("ctl");
    }
    assert("ctl"@ =~= ctl_name());
    same_text(s, "ctl")
}

fn is_out(s: &str) -> (r: bool)
    ensures
        r == (s@ == out_name()),
{
    proof {
        reveal_strlit("out");
    }
    assert("out"@ =~= out_name());
    same_text(s, "out")
}


/// `n` is a reserved name or the name of a declared node.
pub open spec fn known(names: Seq<Seq<char>>, n: Seq<char>) -> bool {
    is_reserved(n) || lookup(names, n).is_some()
}

/// Decreasing measure of the backward walk: how much longer a path may grow.
pub open spec fn room(edges: Seq<(Seq<char>, Seq<char>)>, path: Seq<Seq<char>>) -> nat {
    if path.len() <= edges.len() + 1 {
        (edges.len() + 1 - path.len()) as nat
    } else {
        0
    }
}

/// The paths that end at the last name of `path`, walking backward along the
/// first `k` edges (by node name) whose two ends are known. A path is listed
/// from its first name to the end; a name with no incoming edge starts one.
/// Meeting a name that is already on `path` is a cycle; so is a path longer
/// than the number of edges, which must repeat a name.
pub open spec fn walk(
    names: Seq<Seq<char>>,
    edges: Seq<(Seq<char>, Seq<char>)>,
    path: Seq<Seq<char>>,
    k: nat,
) -> Result<Seq<Seq<Seq<char>>>, PatchError>
    decreases room(edges, path), k,
{
    if k == 0 || k > edges.len() {
        Ok(Seq::empty())
    } else {
        match walk(names, edges, path, (k - 1) as nat) {
            Err(e) => Err(e),
            Ok(acc) => {
                let i = edges[k - 1].0;
                let o = edges[k - 1].1;
                if path.len() == 0 || o != path.last() || !known(names, i) || !known(names, o) {
                    Ok(acc)
                } else if path.contains(i) || path.len() > edges.len() {
                    Err(PatchError::Cycle)
                } else {
                    match walk(names, edges, path.push(i), edges.len()) {
                        Err(e) => Err(e),
                        Ok(children) => if children.len() == 0 {
                            Ok(acc.push(seq![i, o]))
                        } else {
                            Ok(acc + children.map_values(|c: Seq<Seq<char>>| c.push(o)))
                        },
                    }
                }
            },
        }
    }
}

/// The edges as pairs of node names, channels left out.
pub open spec fn name_edges(edges: Seq<(Seq<char>, Seq<char>)>) -> Seq<(Seq<char>, Seq<char>)> {
    Seq::new(edges.len(), |i: int| (port_of(edges[i].0).unwrap().0, port_of(edges[i].1).unwrap().0))
}

/// Pairs of strings viewed as pairs of character sequences.
pub open spec fn pair_views(v: Seq<(String, String)>) -> Seq<(Seq<char>, Seq<char>)> {
    Seq::new(v.len(), |i: int| (v[i].0@, v[i].1@))
}

/// Every path that leads into the output.
pub open spec fn branches(names: Seq<Seq<char>>, edges: Seq<(Seq<char>, Seq<char>)>) -> Result<Seq<Seq<Seq<char>>>, PatchError> {
    let ne = name_edges(edges);
    walk(names, ne, seq![out_name()], ne.len())
}

pub open spec fn arrow() -> Seq<char> {
    seq!['-', '-', '>']
}

/// The names of a path joined by arrows.
pub open spec fn join_path(p: Seq<Seq<char>>) -> Seq<char>
    decreases p.len(),
{
    if p.len() == 0 {
        Seq::empty()
    } else if p.len() == 1 {
        p[0]
    } else {
        join_path(p.drop_last()) + arrow() + p.last()
    }
}

pub open spec fn strs(v: Seq<String>) -> Seq<Seq<char>> {
    Seq::new(v.len(), |i: int| v[i]@)
}

pub open spec fn path_list(v: Seq<Vec<String>>) -> Seq<Seq<Seq<char>>> {
    Seq::new(v.len(), |i: int| strs(v[i]@))
}

/// A walk that starts from known names lists known names only.
proof fn lemma_walk_known(
    names: Seq<Seq<char>>,
    edges: Seq<(Seq<char>, Seq<char>)>,
    path: Seq<Seq<char>>,
    k: nat,
)
    ensures
        walk(names, edges, path, k) is Ok ==> forall|b: int, j: int|
            0 <= b < walk(names, edges, path, k)->Ok_0.len() && 0 <= j < walk(names, edges, path, k)->Ok_0[b].len()
            ==> known(names, #[trigger] walk(names, edges, path, k)->Ok_0[b][j]),
    decreases room(edges, path), k,
{
    if k == 0 || k > edges.len() {
    } else {
        lemma_walk_known(names, edges, path, (k - 1) as nat);
        let i = edges[k - 1].0;
        let o = edges[k - 1].1;
        if walk(names, edges, path, (k - 1) as nat) is Ok {
            if path.len() == 0 || o != path.last() || !known(names, i) || !known(names, o) {
            } else if path.contains(i) || path.len() > edges.len() {
            } else {
                lemma_walk_known(names, edges, path.push(i), edges.len());
                let acc = walk(names, edges, path, (k - 1) as nat)->Ok_0;
                let ch = walk(names, edges, path.push(i), edges.len());
                if ch is Ok {
                    let children = ch->Ok_0;
                    let r = walk(names, edges, path, k)->Ok_0;
                    if children.len() == 0 {
                        assert forall|b: int, j: int| 0 <= b < r.len() && 0 <= j < r[b].len()
                            implies known(names, r[b][j]) by {
                            if b < acc.len() {
                                assert(r[b] == acc[b]);
                            } else {
                                assert(r[b] == seq![i, o]);
                            }
                        }
                    } else {
                        let m = children.map_values(|c: Seq<Seq<char>>| c.push(o));
                        assert(r == acc + m);
                        assert forall|b: int, j: int| 0 <= b < r.len() && 0 <= j < r[b].len()
                            implies known(names, r[b][j]) by {
                            if b < acc.len() {
                                assert(r[b] == acc[b]);
                            } else {
                                let c = children[b - acc.len()];
                                assert(r[b] == c.push(o));
                                if j < c.len() {
                                    assert(r[b][j] == children[b - acc.len()][j]);
                                }
                            }
                        }
                    }
                }
            }
        }
    }
}

/// A patch whose ports are well formed compiles (`create_net` fails on
/// malformed ports only), whatever names its edges use: every connection of
/// its plan is between declared nodes and global channels, and its listing of
/// paths into the output holds only reserved names and names of declared
/// nodes. An edge that names an undeclared node is left out of both.
pub proof fn dangling_edges_are_not_listed<N>(p: Patch<N>)
    requires
        p.wf(),
        p.nodes@.len() <= usize::MAX,
        ports_parse(p.edge_view()),
    ensures
        branches(p.names(), p.edge_view()) is Ok ==> forall|b: int, j: int|
            0 <= b < branches(p.names(), p.edge_view())->Ok_0.len()
            && 0 <= j < branches(p.names(), p.edge_view())->Ok_0[b].len()
            ==> known(p.names(), #[trigger] branches(p.names(), p.edge_view())->Ok_0[b][j]),
        branches(p.names(), p.edge_view()) is Err ==> branches(p.names(), p.edge_view()) == Err::<Seq<Seq<Seq<char>>>, PatchError>(PatchError::Cycle),
        forall|i: int| 0 <= i < plan(p.names(), p.edge_view()).len()
            ==> wire_nodes_below(#[trigger] plan(p.names(), p.edge_view())[i], p.names().len()),
{
    lemma_plan_declared(p.names(), p.edge_view());
    let ne = name_edges(p.edge_view());
    lemma_walk_known(p.names(), ne, seq![out_name()], ne.len());
    lemma_walk_errors(p.names(), ne, seq![out_name()], ne.len());
}

/// The connection of a wire names declared nodes only.
pub open spec fn wire_nodes_below(w: Wire, n: nat) -> bool {
    match w {
        Wire::GlobalToOutput { global } => global < 2,
        Wire::GlobalToInput { global, node, channel } => global < 2 && node < n,
        Wire::NodeToOutput { node } => node < n,
        Wire::NodeToInput { node, channel, source, source_channel } => node < n && source < n,
    }
}

proof fn lemma_lookup_in_range(names: Seq<Seq<char>>, n: Seq<char>)
    ensures
        lookup(names, n) is Some ==> lookup(names, n)->Some_0 < names.len(),
{
    if exists|i: int| 0 <= i < names.len() && names[i] == n {
        let c = choose|i: int| 0 <= i < names.len() && names[i] == n;
        assert(0 <= c < names.len());
    }
}

proof fn lemma_plan_declared(names: Seq<Seq<char>>, edges: Seq<(Seq<char>, Seq<char>)>)
    requires
        names.len() <= usize::MAX,
    ensures
        forall|i: int| 0 <= i < plan(names, edges).len() ==> wire_nodes_below(#[trigger] plan(names, edges)[i], names.len()),
    decreases edges.len(),
{
    if edges.len() > 0 {
        lemma_plan_declared(names, edges.drop_last());
        let src = port_of(edges.last().0).unwrap();
        let snk = port_of(edges.last().1).unwrap();
        lemma_lookup_in_range(names, snk.0);
        lemma_lookup_in_range(names, src.0);
        let rest = plan(names, edges.drop_last());
        let w = wire_for(names, src, snk);
        if w is Some {
            assert(wire_nodes_below(w->Some_0, names.len()));
            assert forall|i: int| 0 <= i < rest.len() + 1 implies wire_nodes_below(#[trigger] rest.push(w->Some_0)[i], names.len()) by {
                if i < rest.len() {
                    assert(rest.push(w->Some_0)[i] == rest[i]);
                }
            }
        }
    }
}

/// Once the walk over the first `k` edges fails, it fails alike over more.
proof fn lemma_walk_err_persists(
    names: Seq<Seq<char>>,
    edges: Seq<(Seq<char>, Seq<char>)>,
    path: Seq<Seq<char>>,
    k: nat,
    j: nat,
)
    requires
        1 <= k <= j <= edges.len(),
        walk(names, edges, path, k) is Err,
    ensures
        walk(names, edges, path, j) == walk(names, edges, path, k),
    decreases j,
{
    if j > k {
        lemma_walk_err_persists(names, edges, path, k, (j - 1) as nat);
    }
}

/// The only failure of a walk is a cycle.
proof fn lemma_walk_errors(
    names: Seq<Seq<char>>,
    edges: Seq<(Seq<char>, Seq<char>)>,
    path: Seq<Seq<char>>,
    k: nat,
)
    ensures
        walk(names, edges, path, k) is Err ==> walk(names, edges, path, k) == Err::<Seq<Seq<Seq<char>>>, PatchError>(PatchError::Cycle),
    decreases room(edges, path), k,
{
    if k == 0 || k > edges.len() {
    } else {
        lemma_walk_errors(names, edges, path, (k - 1) as nat);
        let i = edges[k - 1].0;
        if path.len() > 0 && !path.contains(i) && path.len() <= edges.len() {
            lemma_walk_errors(names, edges, path.push(i), edges.len());
        }
    }
}

/// A user-declared signal-processing graph: nodes with unique names, each
/// carrying a descriptor of type `N`, and edges between port strings.
pub struct Patch<N> {
    pub nodes: Vec<(String, N)>,
    pub edges: Vec<(String, String)>,
}

impl<N> Patch<N> {
    pub open spec fn names(&self) -> Seq<Seq<char>> {
        Seq::new(self.nodes@.len(), |i: int| self.nodes@[i].0@)
    }

    pub open spec fn edge_view(&self) -> Seq<(Seq<char>, Seq<char>)> {
        Seq::new(self.edges@.len(), |i: int| (self.edges@[i].0@, self.edges@[i].1@))
    }

    /// Node names are unique.
    pub open spec fn wf(&self) -> bool {
        forall|i: int, j: int| 0 <= i < j < self.nodes@.len() ==> self.nodes@[i].0@ != self.nodes@[j].0@
    }

    /// A patch with no nodes and no edges.
    pub fn new() -> (r: Patch<N>)
        ensures
            r.wf(),
            r.names().len() == 0,
            r.edge_view().len() == 0,
    {
        Patch { nodes: Vec::new(), edges: Vec::new() }
    }

    /// Position of the node called `name`.
    pub fn find_node(&self, name: &str) -> (r: Option<usize>)
        requires
            self.wf(),
        ensures
            r.is_some() == lookup(self.names(), name@).is_some(),
            r.is_some() ==> r.unwrap() as nat == lookup(self.names(), name@).unwrap(),
    {
        let mut i: usize = 0;
        while i < self.nodes.len()
            invariant
                i <= self.nodes@.len(),
                self.wf(),
                forall|j: int| 0 <= j < i ==> self.nodes@[j].0@ != name@,
            decreases self.nodes@.len() - i,
        {
            if same_text(self.nodes[i].0.as_str(), name) {
                assert(self.names()[i as int] == name@);
                assert(exists|k: int| 0 <= k < self.names().len() && self.names()[k] == name@);
                let ghost c = choose|k: int| 0 <= k < self.names().len() && self.names()[k] == name@;
                assert(c == i as int) by {
                    assert(self.names()[c] == self.nodes@[c].0@);
                    if c != i {
                        assert(self.nodes@[c].0@ != self.nodes@[i as int].0@);
                    }
                }
                return Some(i);
            }
            i = i + 1;
        }
        assert(!exists|k: int| 0 <= k < self.names().len() && self.names()[k] == name@) by {
            assert forall|k: int| 0 <= k < self.names().len() implies self.names()[k] != name@ by {
                assert(self.names()[k] == self.nodes@[k].0@);
            }
        }
        None
    }

    /// Declares node `name` with descriptor `node`, replacing the descriptor
    /// of a node of that name if there is one.
    pub fn insert_node(&mut self, name: String, node: N)
        requires
            old(self).wf(),
        ensures
            final(self).wf(),
            final(self).edges == old(self).edges,
            lookup(old(self).names(), name@).is_some() ==> final(self).names() == old(self).names(),
            lookup(old(self).names(), name@).is_none() ==> final(self).names() == old(self).names().push(name@),
            lookup(old(self).names(), name@).is_none() ==> final(self).nodes@ == old(self).nodes@.push((name, node)),
            lookup(old(self).names(), name@).is_some() ==> final(self).nodes@
                == old(self).nodes@.update(lookup(old(self).names(), name@).unwrap() as int, (name, node)),
    {
        match self.find_node(name.as_str()) {
            Some(i) => {
                let ghost c = choose|k: int| 0 <= k < self.names().len() && self.names()[k] == name@;
                assert(self.names()[c] == self.nodes@[c].0@);
                self.nodes.set(i, (name, node));
                assert(final(self).names() =~= old(self).names());
            },
            None => {
                assert forall|k: int| 0 <= k < self.nodes@.len() implies self.nodes@[k].0@ != name@ by {
                    assert(self.names()[k] == self.nodes@[k].0@);
                }
                self.nodes.push((name, node));
                assert(final(self).names() =~= old(self).names().push(name@));
            },
        }
    }

    /// Adds an edge from port `src` to port `snk`.
    pub fn add_edge(&mut self, src: String, snk: String)
        ensures
            final(self).nodes == old(self).nodes,
            final(self).edge_view() == old(self).edge_view().push((src@, snk@)),
    {
        self.edges.push((src, snk));
        assert(final(self).edge_view() =~= old(self).edge_view().push((src@, snk@)));
    }

    /// The connection made by the edge from port `src` to port `snk`.
    fn wire_of_edge(&self, src: &String, snk: &String) -> (r: Result<Option<Wire>, PatchError>)
        requires
            self.wf(),
        ensures
            r.is_ok() == (port_of(src@).is_some() && port_of(snk@).is_some()),
            r.is_ok() ==> r.unwrap() == wire_for(self.names(), port_of(src@).unwrap(), port_of(snk@).unwrap()),
            r.is_err() ==> r == Err::<Option<Wire>, PatchError>(PatchError::BadPort),
    {
        let (src_name, src_ch) = match parse_port(src.as_str()) {
            Some(p) => p,
            None => return Err(PatchError::BadPort),
        };
        let (snk_name, snk_ch) = match parse_port(snk.as_str()) {
            Some(p) => p,
            None => return Err(PatchError::BadPort),
        };
        let src_freq = is_freq(src_name.as_str());
        let src_ctl = is_ctl(src_name.as_str());
        let snk_out = is_out(snk_name.as_str());
        if src_freq && snk_out {
            Ok(Some(Wire::GlobalToOutput { global: 0 }))
        } else if src_ctl && snk_out {
            Ok(Some(Wire::GlobalToOutput { global: 1 }))
        } else if src_freq || src_ctl {
            let g: usize = if src_freq { 0 } else { 1 };
            match self.find_node(snk_name.as_str()) {
                Some(j) => Ok(Some(Wire::GlobalToInput { global: g, node: j, channel: snk_ch })),
                None => Ok(None),
            }
        } else if snk_out {
            match self.find_node(src_name.as_str()) {
                Some(i) => Ok(Some(Wire::NodeToOutput { node: i })),
                None => Ok(None),
            }
        } else {
            match (self.find_node(src_name.as_str()), self.find_node(snk_name.as_str())) {
                (Some(i), Some(j)) => Ok(Some(Wire::NodeToInput {
                    node: j,
                    channel: snk_ch,
                    source: i,
                    source_channel: src_ch,
                })),
                _ => Ok(None),
            }
        }
    }

    /// The wiring of the compiled network: global input 0 to the output as
    /// the fallback, then one connection per edge in order. An edge that
    /// names an undeclared node makes no connection. Fails exactly when a
    /// port string has a channel suffix that is not a number.
    pub fn create_net(&self) -> (r: Result<Vec<Wire>, PatchError>)
        requires
            self.wf(),
        ensures
            r.is_ok() == ports_parse(self.edge_view()),
            r.is_ok() ==> r.unwrap()@ == plan(self.names(), self.edge_view()),
            r.is_err() ==> r == Err::<Vec<Wire>, PatchError>(PatchError::BadPort),
    {
        let mut wires: Vec<Wire> = Vec::new();
        wires.push(Wire::GlobalToOutput { global: 0 });
        let mut k: usize = 0;
        proof {
            assert(self.edge_view().take(0).len() == 0);
        }
        while k < self.edges.len()
            invariant
                self.wf(),
                k <= self.edges@.len(),
                ports_parse(self.edge_view().take(k as int)),
                wires@ == plan(self.names(), self.edge_view().take(k as int)),
            decreases self.edges@.len() - k,
        {
            let ghost e = self.edge_view();
            assert(e.take(k + 1).drop_last() =~= e.take(k as int));
            assert(e[k as int] == (self.edges@[k as int].0@, self.edges@[k as int].1@));
            match self.wire_of_edge(&self.edges[k].0, &self.edges[k].1) {
                Err(err) => {
                    assert(!(port_of(e[k as int].0).is_some() && port_of(e[k as int].1).is_some()));
                    assert(!ports_parse(e));
                    return Err(err);
                },
                Ok(w) => {
                    match w {
                        Some(w) => wires.push(w),
                        None => {},
                    }
                },
            }
            proof {
                assert forall|i: int| 0 <= i < k + 1 implies
                    (#[trigger] port_of(e.take(k + 1)[i].0)).is_some() && port_of(e.take(k + 1)[i].1).is_some() by {
                    if i < k {
                        assert(e.take(k + 1)[i] == e.take(k as int)[i]);
                    }
                }
            }
            k = k + 1;
        }
        assert(self.edge_view().take(k as int) =~= self.edge_view());
        Ok(wires)
    }

    /// `n` is a reserved name or the name of a declared node.
    fn is_known(&self, n: &String) -> (r: bool)
        requires
            self.wf(),
        ensures
            r == known(self.names(), n@),
    {
        is_freq(n.as_str()) || is_ctl(n.as_str()) || is_out(n.as_str()) || self.find_node(n.as_str()).is_some()
    }

    /// The paths into the last name of `path`; see `walk`.
    fn get_branches(&self, edges: &Vec<(String, String)>, path: &mut Vec<String>) -> (r: Result<Vec<Vec<String>>, PatchError>)
        requires
            self.wf(),
            old(path)@.len() >= 1,
            old(path)@.len() <= edges@.len() + 1,
        ensures
            final(path)@ == old(path)@,
            r.is_ok() == walk(self.names(), pair_views(edges@), strs(old(path)@), edges@.len() as nat) is Ok,
            r.is_ok() ==> path_list(r.unwrap()@) == walk(self.names(), pair_views(edges@), strs(old(path)@), edges@.len() as nat)->Ok_0,
            r.is_err() ==> r == Err::<Vec<Vec<String>>, PatchError>(walk(self.names(), pair_views(edges@), strs(old(path)@), edges@.len() as nat)->Err_0),
        decreases edges@.len() + 1 - old(path)@.len(),
    {
        let ghost names = self.names();
        let ghost ev = pair_views(edges@);
        let ghost pv = strs(path@);
        let last = path.len() - 1;
        let mut acc: Vec<Vec<String>> = Vec::new();
        let mut k: usize = 0;
        while k < edges.len()
            invariant
                self.wf(),
                names == self.names(),
                ev == pair_views(edges@),
                pv == strs(path@),
                path@ == old(path)@,
                path@.len() >= 1,
                path@.len() <= edges@.len() + 1,
                last == path@.len() - 1,
                k <= edges@.len(),
                walk(names, ev, pv, k as nat) is Ok,
                path_list(acc@) == walk(names, ev, pv, k as nat)->Ok_0,
            decreases edges@.len() - k,
        {
            let ghost acc0 = path_list(acc@);
            assert(ev[k as int] == (edges@[k as int].0@, edges@[k as int].1@));
            assert(pv.last() == path@[last as int]@);
            let i = &edges[k].0;
            let o = &edges[k].1;
            if !same_text(o.as_str(), path[last].as_str()) || !self.is_known(i) || !self.is_known(o) {
                k = k + 1;
                continue;
            }
            let mut on_path = false;
            let mut m: usize = 0;
            while m < path.len()
                invariant
                    m <= path@.len(),
                    pv == strs(path@),
                    on_path == exists|q: int| 0 <= q < m && pv[q] == i@,
                decreases path@.len() - m,
            {
                if same_text(path[m].as_str(), i.as_str()) {
                    on_path = true;
                }
                assert(pv[m as int] == path@[m as int]@);
                m = m + 1;
            }
            assert(on_path == pv.contains(i@));
            if on_path || path.len() > edges.len() {
                proof {
                    lemma_walk_err_persists(names, ev, pv, (k + 1) as nat, edges@.len() as nat);
                }
                return Err(PatchError::Cycle);
            }
            path.push(i.clone());
            assert(strs(path@) =~= pv.push(i@));
            let children = match self.get_branches(edges, path) {
                Ok(c) => c,
                Err(e) => {
                    path.pop();
                    assert(path@ =~= old(path)@);
                    proof {
                        lemma_walk_err_persists(names, ev, pv, (k + 1) as nat, edges@.len() as nat);
                    }
                    return Err(e);
                },
            };
            path.pop();
            assert(path@ =~= old(path)@);
            let ghost ch = path_list(children@);
            if children.len() == 0 {
                let mut b: Vec<String> = Vec::new();
                b.push(i.clone());
                b.push(o.clone());
                let ghost pl = path_list(acc@);
                acc.push(b);
                assert(strs(b@) =~= seq![i@, o@]);
                assert(path_list(acc@) =~= pl.push(seq![i@, o@]));
                assert(path_list(acc@) =~= acc0.push(seq![i@, o@]));
            } else {
                let mut cs = children;
                let mut q: usize = 0;
                while cs.len() > 0
                    invariant
                        q <= ch.len() <= usize::MAX,
                        cs@.len() == ch.len() - q,
                        path_list(acc@) == acc0 + ch.map_values(|c: Seq<Seq<char>>| c.push(o@)).take(q as int),
                        forall|t: int| 0 <= t < cs@.len() ==> strs(cs@[t]@) == ch[q + t],
                    decreases cs@.len(),
                {
                    let mut c = cs.remove(0);
                    assert(strs(c@) == ch[q as int]);
                    c.push(o.clone());
                    assert(strs(c@) =~= ch[q as int].push(o@));
                    let ghost pl = path_list(acc@);
                    acc.push(c);
                    assert(path_list(acc@) =~= pl.push(ch[q as int].push(o@)));
                    assert(ch.map_values(|c: Seq<Seq<char>>| c.push(o@)).take(q + 1)
                        =~= ch.map_values(|c: Seq<Seq<char>>| c.push(o@)).take(q as int).push(ch[q as int].push(o@)));
                    assert(path_list(acc@) =~= acc0 + ch.map_values(|c: Seq<Seq<char>>| c.push(o@)).take(q + 1));
                    q = q + 1;
                }
                assert(ch.map_values(|c: Seq<Seq<char>>| c.push(o@)).take(q as int) =~= ch.map_values(|c: Seq<Seq<char>>| c.push(o@)));
            }
            k = k + 1;
        }
        Ok(acc)
    }

    /// Every path of node names that leads into the output, written with
    /// arrows between the names (`a-->b-->out`). Edges that name an undeclared
    /// node are left out. Fails with `BadPort` where a port string is
    /// malformed, and with `Cycle` where the edges into the output loop.
    pub fn branch_reprs(&self) -> (r: Result<Vec<String>, PatchError>)
        requires
            self.wf(),
        ensures
            !ports_parse(self.edge_view()) ==> r == Err::<Vec<String>, PatchError>(PatchError::BadPort),
            ports_parse(self.edge_view()) ==> match branches(self.names(), self.edge_view()) {
                Ok(bs) => r is Ok && r->Ok_0@.len() == bs.len()
                    && forall|i: int| 0 <= i < bs.len() ==> (#[trigger] r->Ok_0@[i])@ == join_path(bs[i]),
                Err(e) => r == Err::<Vec<String>, PatchError>(e),
            },
    {
        let ghost ev = self.edge_view();
        let mut ne: Vec<(String, String)> = Vec::new();
        let mut k: usize = 0;
        while k < self.edges.len()
            invariant
                self.wf(),
                ev == self.edge_view(),
                k <= self.edges@.len(),
                ports_parse(ev.take(k as int)),
                pair_views(ne@) == name_edges(ev.take(k as int)),
            decreases self.edges@.len() - k,
        {
            assert(ev[k as int] == (self.edges@[k as int].0@, self.edges@[k as int].1@));
            let src = match parse_port(self.edges[k].0.as_str()) {
                Some(p) => p,
                None => {
                    assert(!ports_parse(ev));
                    return Err(PatchError::BadPort);
                },
            };
            let snk = match parse_port(self.edges[k].1.as_str()) {
                Some(p) => p,
                None => {
                    assert(!ports_parse(ev));
                    return Err(PatchError::BadPort);
                },
            };
            let ghost before = pair_views(ne@);
            ne.push((src.0, snk.0));
            proof {
                assert(pair_views(ne@) =~= before.push((port_of(ev[k as int].0).unwrap().0, port_of(ev[k as int].1).unwrap().0)));
                assert(name_edges(ev.take(k + 1)) =~= name_edges(ev.take(k as int)).push(
                    (port_of(ev[k as int].0).unwrap().0, port_of(ev[k as int].1).unwrap().0)));
                assert forall|i: int| 0 <= i < k + 1 implies
                    (#[trigger] port_of(ev.take(k + 1)[i].0)).is_some() && port_of(ev.take(k + 1)[i].1).is_some() by {
                    if i < k {
                        assert(ev.take(k + 1)[i] == ev.take(k as int)[i]);
                    }
                }
            }
            k = k + 1;
        }
        assert(ev.take(k as int) =~= ev);
        let mut path: Vec<String> = Vec::new();
        proof {
            reveal_strlit("out");
        }
        assert("out"@ =~= out_name());
        path.push(String::from_str("out"));
        assert(path@[0]@ == out_name());
        assert(strs(path@) =~= seq![out_name()]);
        let bs = match self.get_branches(&ne, &mut path) {
            Ok(b) => b,
            Err(e) => return Err(e),
        };
        let ghost bv = path_list(bs@);
        let mut out: Vec<String> = Vec::new();
        let mut i: usize = 0;
        while i < bs.len()
            invariant
                i <= bs@.len(),
                bv == path_list(bs@),
                out@.len() == i,
                forall|j: int| 0 <= j < i ==> (#[trigger] out@[j])@ == join_path(bv[j]),
            decreases bs@.len() - i,
        {
            out.push(join_names(&bs[i]));
            i = i + 1;
        }
        Ok(out)
    }
}

/// The names of `p` joined by arrows.
fn join_names(p: &Vec<String>) -> (r: String)
    ensures
        r@ == join_path(strs(p@)),
{
    if p.len() == 0 {
        return String::new();
    }
    let ghost pv = strs(p@);
    let mut s = p[0].clone();
    assert(pv.take(1).drop_last() =~= Seq::<Seq<char>>::empty());
    let mut i: usize = 1;
    proof {
        reveal_strlit("-->");
    }
    assert("-->"@ =~= arrow());
    while i < p.len()
        invariant
            1 <= i <= p@.len(),
            pv == strs(p@),
            "-->"@ == arrow(),
            s@ == join_path(pv.take(i as int)),
        decreases p@.len() - i,
    {
        s.append("-->");
        s.append(p[i].as_str());
        assert(pv.take(i + 1).drop_last() =~= pv.take(i as int));
        i = i + 1;
    }
    assert(pv.take(i as int) =~= pv);
    s
}

} // verus!
