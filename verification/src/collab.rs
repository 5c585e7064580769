//! Collaborative editing: the operations peers exchange and how one is applied
//! to the local graph. Payloads arrive as JSON; the network side decodes them
//! into graph values, and a payload that does not decode travels as `None`.

use vstd::prelude::*;
use crate::copy::{copy_character, copy_node, copy_node_type, copy_variable};
use crate::flatten::insert_v;
use crate::graph::{other_node, untouched_by};
use crate::model::{
    Character, CharacterV, Connection, DialogueGraph, GraphV, Node, NodeV, Variable, VariableV, character_view,
    graph_view, kind_view, lemma_nodes_view, node_view, nodes_view, variable_view,
};
use crate::same::same_kind;

verus! {

/// A single collaborative operation.
pub enum CollabOp {
    AddNode { node: Option<Node> },
    RemoveNode { node_id: u128 },
    MoveNode { node_id: u128, position: [i32; 2] },
    AddConnection { conn: Option<Connection> },
    RemoveConnection { connection_id: u128 },
    EditNodeField { node_id: u128, node: Option<Node> },
    AddVariable { var: Option<Variable> },
    RemoveVariable { var_id: u128 },
    EditVariable { var: Option<Variable> },
    AddCharacter { ch: Option<Character> },
    RemoveCharacter { char_id: u128 },
    EditCharacter { ch: Option<Character> },
}

pub open spec fn vars_view(s: Seq<Variable>) -> Seq<VariableV> {
    s.map_values(|v: Variable| variable_view(v))
}

pub open spec fn chars_view(s: Seq<Character>) -> Seq<CharacterV> {
    s.map_values(|c: Character| character_view(c))
}

/// The connections whose identifier differs from `id`.
pub open spec fn drop_connection(cs: Seq<Connection>, id: u128) -> Seq<Connection>
    decreases cs.len(),
{
    if cs.len() == 0 {
        seq![]
    } else {
        drop_connection(cs.drop_last(), id) + if cs.last().id != id { seq![cs.last()] } else { seq![] }
    }
}

/// The variables whose identifier differs from `id`.
pub open spec fn drop_variable(vs: Seq<VariableV>, id: u128) -> Seq<VariableV>
    decreases vs.len(),
{
    if vs.len() == 0 {
        seq![]
    } else {
        drop_variable(vs.drop_last(), id) + if vs.last().id != id { seq![vs.last()] } else { seq![] }
    }
}

/// The characters whose identifier differs from `id`.
pub open spec fn drop_character(cs: Seq<CharacterV>, id: u128) -> Seq<CharacterV>
    decreases cs.len(),
{
    if cs.len() == 0 {
        seq![]
    } else {
        drop_character(cs.drop_last(), id) + if cs.last().id != id { seq![cs.last()] } else { seq![] }
    }
}

/// Position of the first element with identifier `id` among identifiers, or -1.
pub open spec fn first_with(ids: Seq<u128>, id: u128) -> int
    decreases ids.len(),
{
    if ids.len() == 0 {
        -1
    } else if ids[0] == id {
        0
    } else {
        let r = first_with(ids.drop_first(), id);
        if r < 0 { -1 } else { r + 1 }
    }
}

/// `first_with` finds the first occurrence, or says there is none.
pub proof fn lemma_first_with(ids: Seq<u128>, id: u128)
    ensures
        first_with(ids, id) < 0 ==> forall|j: int| 0 <= j < ids.len() ==> #[trigger] ids[j] != id,
        first_with(ids, id) >= 0 ==> first_with(ids, id) < ids.len() && ids[first_with(ids, id)] == id
            && forall|j: int| 0 <= j < first_with(ids, id) ==> #[trigger] ids[j] != id,
    decreases ids.len(),
{
    if ids.len() > 0 {
        lemma_first_with(ids.drop_first(), id);
        assert forall|j: int| 0 < j < ids.len() implies ids[j] == ids.drop_first()[j - 1] by {}
    }
}

pub open spec fn node_ids(s: Seq<NodeV>) -> Seq<u128> {
    s.map_values(|n: NodeV| n.id)
}

pub open spec fn var_ids(s: Seq<VariableV>) -> Seq<u128> {
    s.map_values(|v: VariableV| v.id)
}

pub open spec fn char_ids(s: Seq<CharacterV>) -> Seq<u128> {
    s.map_values(|c: CharacterV| c.id)
}

/// The position of the first node with identifier `id` (see `first_with`).
pub fn first_node_index(nodes: &Vec<Node>, id: u128) -> (r: Option<usize>)
    ensures
        match r {
            Some(i) => first_with(node_ids(nodes_view(nodes@)), id) == i as int && i < nodes.len(),
            None => first_with(node_ids(nodes_view(nodes@)), id) < 0,
        },
{
    let ghost ids = node_ids(nodes_view(nodes@));
    proof {
        lemma_nodes_view(nodes@);
        lemma_first_with(ids, id);
    }
    let mut i: usize = 0;
    while i < nodes.len()
        invariant
            i <= nodes.len(),
            ids == node_ids(nodes_view(nodes@)),
            ids.len() == nodes.len(),
            forall|q: int| 0 <= q < nodes.len() ==> #[trigger] ids[q] == nodes@[q].id,
            first_with(ids, id) < 0 || first_with(ids, id) >= i,
            first_with(ids, id) < 0 ==> forall|j: int| 0 <= j < ids.len() ==> #[trigger] ids[j] != id,
            first_with(ids, id) >= 0 ==> first_with(ids, id) < ids.len() && ids[first_with(ids, id)] == id
                && forall|j: int| 0 <= j < first_with(ids, id) ==> #[trigger] ids[j] != id,
        decreases nodes.len() - i,
    {
        if nodes[i].id == id {
            assert(ids[i as int] == id);
            return Some(i);
        }
        i = i + 1;
    }
    None
}

/// `b` holds the same project data as `a` apart from the nodes and the connections.
pub open spec fn same_but_nodes_and_wires(a: DialogueGraph, b: DialogueGraph) -> bool {
    &&& b.variables == a.variables
    &&& b.characters == a.characters
    &&& b.barks == a.barks
    &&& b.locale == a.locale
    &&& b.world_entities == a.world_entities
    &&& b.node_tags == a.node_tags
}

pub open spec fn same_but_nodes(a: DialogueGraph, b: DialogueGraph) -> bool {
    same_but_nodes_and_wires(a, b) && b.connections == a.connections
}

pub open spec fn same_but_wires(a: DialogueGraph, b: DialogueGraph) -> bool {
    same_but_nodes_and_wires(a, b) && b.nodes == a.nodes
}

pub open spec fn same_but_variables(a: DialogueGraph, b: DialogueGraph) -> bool {
    &&& b.nodes == a.nodes
    &&& b.connections == a.connections
    &&& b.characters == a.characters
    &&& b.barks == a.barks
    &&& b.locale == a.locale
    &&& b.world_entities == a.world_entities
    &&& b.node_tags == a.node_tags
}

pub open spec fn same_but_characters(a: DialogueGraph, b: DialogueGraph) -> bool {
    &&& b.nodes == a.nodes
    &&& b.connections == a.connections
    &&& b.variables == a.variables
    &&& b.barks == a.barks
    &&& b.locale == a.locale
    &&& b.world_entities == a.world_entities
    &&& b.node_tags == a.node_tags
}

/// Node `j` of `b` is node `j` of `a` moved to `position`; the others are unchanged.
pub open spec fn moved_at(a: Seq<Node>, b: Seq<Node>, j: int, position: [i32; 2]) -> bool {
    &&& b.len() == a.len()
    &&& forall|k: int| 0 <= k < a.len() && k != j ==> b[k] == a[k]
    &&& b[j].id == a[j].id
    &&& b[j].node_type == a[j].node_type
    &&& b[j].inputs == a[j].inputs
    &&& b[j].outputs == a[j].outputs
    &&& b[j].position == position
}

/// Node `j` of `b` is node `j` of `a` with the data of `kind`; the others are unchanged.
pub open spec fn edited_at(a: Seq<Node>, b: Seq<Node>, j: int, kind: crate::model::KindV) -> bool {
    &&& b.len() == a.len()
    &&& forall|k: int| 0 <= k < a.len() && k != j ==> b[k] == a[k]
    &&& b[j].id == a[j].id
    &&& kind_view(b[j].node_type) == kind
    &&& b[j].inputs == a[j].inputs
    &&& b[j].outputs == a[j].outputs
    &&& b[j].position == a[j].position
}

fn take_node(g: &mut DialogueGraph, j: usize) -> (n: Node)
    requires
        j < old(g).nodes.len(),
    ensures
        n == old(g).nodes@[j as int],
        final(g).nodes@ == old(g).nodes@.remove(j as int),
        same_but_nodes(*old(g), *final(g)),
{
    g.nodes.remove(j)
}

fn move_node(g: &mut DialogueGraph, id: u128, position: [i32; 2]) -> (moved: bool)
    ensures
        ({
            let j = first_with(node_ids(nodes_view(old(g).nodes@)), id);
            &&& moved == (j >= 0)
            &&& j < 0 ==> *final(g) == *old(g)
            &&& j >= 0 ==> moved_at(old(g).nodes@, final(g).nodes@, j, position) && same_but_nodes(*old(g), *final(g))
        }),
{
    match first_node_index(&g.nodes, id) {
        None => false,
        Some(j) => {
            let mut n = take_node(g, j);
            n.position = position;
            g.nodes.insert(j, n);
            assert(g.nodes@ =~= old(g).nodes@.update(j as int, n));
            true
        },
    }
}

fn edit_node(g: &mut DialogueGraph, id: u128, src: &Node) -> (edited: bool)
    ensures
        ({
            let j = first_with(node_ids(nodes_view(old(g).nodes@)), id);
            &&& edited == (j >= 0)
            &&& j < 0 ==> *final(g) == *old(g)
            &&& j >= 0 ==> edited_at(old(g).nodes@, final(g).nodes@, j, kind_view(src.node_type))
                && same_but_nodes(*old(g), *final(g))
        }),
{
    match first_node_index(&g.nodes, id) {
        None => false,
        Some(j) => {
            let mut n = take_node(g, j);
            n.node_type = copy_node_type(&src.node_type);
            g.nodes.insert(j, n);
            assert(g.nodes@ =~= old(g).nodes@.update(j as int, n));
            true
        },
    }
}

fn drop_connections(g: &mut DialogueGraph, id: u128)
    ensures
        final(g).connections@ == drop_connection(old(g).connections@, id),
        same_but_wires(*old(g), *final(g)),
{
    let mut kept: Vec<Connection> = Vec::new();
    let mut i: usize = 0;
    assert(g.connections@.take(0) =~= Seq::<Connection>::empty());
    while i < g.connections.len()
        invariant
            i <= g.connections.len(),
            *g == *old(g),
            kept@ == drop_connection(g.connections@.take(i as int), id),
        decreases g.connections.len() - i,
    {
        let c = g.connections[i];
        if c.id != id {
            kept.push(c);
        }
        assert(g.connections@.take(i + 1).drop_last() =~= g.connections@.take(i as int));
        assert(kept@ =~= drop_connection(g.connections@.take(i + 1), id));
        i = i + 1;
    }
    assert(g.connections@.take(g.connections.len() as int) =~= g.connections@);
    g.connections = kept;
}

fn first_variable_index(vs: &Vec<Variable>, id: u128) -> (r: Option<usize>)
    ensures
        match r {
            Some(i) => first_with(var_ids(vars_view(vs@)), id) == i as int && i < vs.len(),
            None => first_with(var_ids(vars_view(vs@)), id) < 0,
        },
{
    let ghost ids = var_ids(vars_view(vs@));
    proof {
        lemma_first_with(ids, id);
    }
    let mut i: usize = 0;
    while i < vs.len()
        invariant
            i <= vs.len(),
            ids == var_ids(vars_view(vs@)),
            ids.len() == vs.len(),
            forall|q: int| 0 <= q < vs.len() ==> #[trigger] ids[q] == vs@[q].id,
            first_with(ids, id) < 0 || first_with(ids, id) >= i,
            first_with(ids, id) < 0 ==> forall|j: int| 0 <= j < ids.len() ==> #[trigger] ids[j] != id,
            first_with(ids, id) >= 0 ==> first_with(ids, id) < ids.len() && ids[first_with(ids, id)] == id
                && forall|j: int| 0 <= j < first_with(ids, id) ==> #[trigger] ids[j] != id,
        decreases vs.len() - i,
    {
        if vs[i].id == id {
            assert(ids[i as int] == id);
            return Some(i);
        }
        i = i + 1;
    }
    None
}

fn first_character_index(cs: &Vec<Character>, id: u128) -> (r: Option<usize>)
    ensures
        match r {
            Some(i) => first_with(char_ids(chars_view(cs@)), id) == i as int && i < cs.len(),
            None => first_with(char_ids(chars_view(cs@)), id) < 0,
        },
{
    let ghost ids = char_ids(chars_view(cs@));
    proof {
        lemma_first_with(ids, id);
    }
    let mut i: usize = 0;
    while i < cs.len()
        invariant
            i <= cs.len(),
            ids == char_ids(chars_view(cs@)),
            ids.len() == cs.len(),
            forall|q: int| 0 <= q < cs.len() ==> #[trigger] ids[q] == cs@[q].id,
            first_with(ids, id) < 0 || first_with(ids, id) >= i,
            first_with(ids, id) < 0 ==> forall|j: int| 0 <= j < ids.len() ==> #[trigger] ids[j] != id,
            first_with(ids, id) >= 0 ==> first_with(ids, id) < ids.len() && ids[first_with(ids, id)] == id
                && forall|j: int| 0 <= j < first_with(ids, id) ==> #[trigger] ids[j] != id,
        decreases cs.len() - i,
    {
        if cs[i].id == id {
            assert(ids[i as int] == id);
            return Some(i);
        }
        i = i + 1;
    }
    None
}

fn drop_variables(g: &mut DialogueGraph, id: u128)
    ensures
        vars_view(final(g).variables@) == drop_variable(vars_view(old(g).variables@), id),
        same_but_variables(*old(g), *final(g)),
{
    let ghost vv = vars_view(g.variables@);
    let mut rest: Vec<Variable> = Vec::new();
    std::mem::swap(&mut rest, &mut g.variables);
    let mut kept: Vec<Variable> = Vec::new();
    let mut i: usize = 0;
    assert(vv.take(0) =~= Seq::<VariableV>::empty());
    assert(vars_view(kept@) =~= drop_variable(vv.take(0), id));
    while i < rest.len()
        invariant
            i <= rest.len(),
            vv == vars_view(rest@),
            vv.len() == rest.len(),
            vars_view(kept@) == drop_variable(vv.take(i as int), id),
        decreases rest.len() - i,
    {
        assert(vv[i as int] == variable_view(rest@[i as int]));
        let ghost prev = kept@;
        if rest[i].id != id {
            kept.push(copy_variable(&rest[i]));
            assert(vars_view(kept@) =~= vars_view(prev).push(vv[i as int]));
        }
        assert(vv.take(i + 1).drop_last() =~= vv.take(i as int));
        assert(vars_view(kept@) =~= drop_variable(vv.take(i + 1), id));
        i = i + 1;
    }
    assert(vv.take(rest.len() as int) =~= vv);
    g.variables = kept;
}

fn drop_characters(g: &mut DialogueGraph, id: u128)
    ensures
        chars_view(final(g).characters@) == drop_character(chars_view(old(g).characters@), id),
        same_but_characters(*old(g), *final(g)),
{
    let ghost cv = chars_view(g.characters@);
    let mut rest: Vec<Character> = Vec::new();
    std::mem::swap(&mut rest, &mut g.characters);
    let mut kept: Vec<Character> = Vec::new();
    let mut i: usize = 0;
    assert(cv.take(0) =~= Seq::<CharacterV>::empty());
    assert(chars_view(kept@) =~= drop_character(cv.take(0), id));
    while i < rest.len()
        invariant
            i <= rest.len(),
            cv == chars_view(rest@),
            cv.len() == rest.len(),
            chars_view(kept@) == drop_character(cv.take(i as int), id),
        decreases rest.len() - i,
    {
        assert(cv[i as int] == character_view(rest@[i as int]));
        let ghost prev = kept@;
        if rest[i].id != id {
            kept.push(copy_character(&rest[i]));
            assert(chars_view(kept@) =~= chars_view(prev).push(cv[i as int]));
        }
        assert(cv.take(i + 1).drop_last() =~= cv.take(i as int));
        assert(chars_view(kept@) =~= drop_character(cv.take(i + 1), id));
        i = i + 1;
    }
    assert(cv.take(rest.len() as int) =~= cv);
    g.characters = kept;
}

/// What applying an operation does to the graph and whether it counts as
/// applied: nodes are added (or replace the node with their identifier),
/// removed with their connections, moved, or given new data; connections are
/// added as `add_connection` adds them or removed; variables and characters
/// are appended, removed, or replaced in the place of the first one with the
/// same identifier. An operation whose payload did not decode, or that names
/// a node, variable or character that is not there, changes nothing and is
/// not applied; a removal always counts as applied.
pub open spec fn applied(op: CollabOp, a: DialogueGraph, b: DialogueGraph, r: bool) -> bool {
    match op {
        CollabOp::AddNode { node } => match node {
            Some(n) => r && nodes_view(b.nodes@) == insert_v(nodes_view(a.nodes@), node_view(n)) && same_but_nodes(a, b),
            None => !r && b == a,
        },
        CollabOp::RemoveNode { node_id } => r && b.nodes@ == a.nodes@.filter(other_node(node_id))
            && b.connections@ == a.connections@.filter(untouched_by(node_id)) && same_but_nodes_and_wires(a, b),
        CollabOp::MoveNode { node_id, position } => {
            let j = first_with(node_ids(nodes_view(a.nodes@)), node_id);
            &&& r == (j >= 0)
            &&& j < 0 ==> b == a
            &&& j >= 0 ==> moved_at(a.nodes@, b.nodes@, j, position) && same_but_nodes(a, b)
        },
        CollabOp::AddConnection { conn } => match conn {
            Some(c) => {
                &&& r == !(c.from_node == c.to_node || crate::graph::already_wired(a.connections@, c.from_port, c.to_port))
                &&& !r ==> b == a
                &&& r ==> b.connections@.drop_last() == a.connections@ && b.connections@.len() == a.connections@.len() + 1
                    && crate::model::wire(b.connections@.last()) == crate::model::wire(c) && same_but_wires(a, b)
            },
            None => !r && b == a,
        },
        CollabOp::RemoveConnection { connection_id } => r && b.connections@ == drop_connection(a.connections@, connection_id)
            && same_but_wires(a, b),
        CollabOp::EditNodeField { node_id, node } => match node {
            Some(n) => {
                let j = first_with(node_ids(nodes_view(a.nodes@)), node_id);
                &&& r == (j >= 0)
                &&& j < 0 ==> b == a
                &&& j >= 0 ==> edited_at(a.nodes@, b.nodes@, j, kind_view(n.node_type)) && same_but_nodes(a, b)
            },
            None => !r && b == a,
        },
        CollabOp::AddVariable { var } => match var {
            Some(v) => r && vars_view(b.variables@) == vars_view(a.variables@).push(variable_view(v)) && same_but_variables(a, b),
            None => !r && b == a,
        },
        CollabOp::RemoveVariable { var_id } => r && vars_view(b.variables@) == drop_variable(vars_view(a.variables@), var_id)
            && same_but_variables(a, b),
        CollabOp::EditVariable { var } => match var {
            Some(v) => {
                let j = first_with(var_ids(vars_view(a.variables@)), v.id);
                &&& r == (j >= 0)
                &&& j < 0 ==> b == a
                &&& j >= 0 ==> vars_view(b.variables@) == vars_view(a.variables@).update(j, variable_view(v))
                    && same_but_variables(a, b)
            },
            None => !r && b == a,
        },
        CollabOp::AddCharacter { ch } => match ch {
            Some(c) => r && chars_view(b.characters@) == chars_view(a.characters@).push(character_view(c))
                && same_but_characters(a, b),
            None => !r && b == a,
        },
        CollabOp::RemoveCharacter { char_id } => r && chars_view(b.characters@) == drop_character(chars_view(a.characters@), char_id)
            && same_but_characters(a, b),
        CollabOp::EditCharacter { ch } => match ch {
            Some(c) => {
                let j = first_with(char_ids(chars_view(a.characters@)), c.id);
                &&& r == (j >= 0)
                &&& j < 0 ==> b == a
                &&& j >= 0 ==> chars_view(b.characters@) == chars_view(a.characters@).update(j, character_view(c))
                    && same_but_characters(a, b)
            },
            None => !r && b == a,
        },
    }
}

/// Applies one operation to the graph (see `applied`); returns whether it was applied.
pub fn apply_op(graph: &mut DialogueGraph, op: &CollabOp) -> (r: bool)
    ensures
        applied(*op, *old(graph), *final(graph), r),
{
    match op {
        CollabOp::AddNode { node } => match node {
            Some(n) => {
                let c = copy_node(n);
                crate::flatten::insert_node_view(graph, c);
                true
            },
            None => false,
        },
        CollabOp::RemoveNode { node_id } => {
            graph.remove_node(*node_id);
            true
        },
        CollabOp::MoveNode { node_id, position } => move_node(graph, *node_id, *position),
        CollabOp::AddConnection { conn } => match conn {
            Some(c) => {
                let added = graph.add_connection(c.from_node, c.from_port, c.to_node, c.to_port);
                added
            },
            None => false,
        },
        CollabOp::RemoveConnection { connection_id } => {
            drop_connections(graph, *connection_id);
            true
        },
        CollabOp::EditNodeField { node_id, node } => match node {
            Some(n) => edit_node(graph, *node_id, n),
            None => false,
        },
        CollabOp::AddVariable { var } => match var {
            Some(v) => {
                let ghost before = graph.variables@;
                graph.variables.push(copy_variable(v));
                assert(vars_view(graph.variables@) =~= vars_view(before).push(variable_view(*v)));
                true
            },
            None => false,
        },
        CollabOp::RemoveVariable { var_id } => {
            drop_variables(graph, *var_id);
            true
        },
        CollabOp::EditVariable { var } => match var {
            Some(v) => match first_variable_index(&graph.variables, v.id) {
                Some(j) => {
                    let ghost before = graph.variables@;
                    graph.variables.set(j, copy_variable(v));
                    assert(vars_view(graph.variables@) =~= vars_view(before).update(j as int, variable_view(*v)));
                    true
                },
                None => false,
            },
            None => false,
        },
        CollabOp::AddCharacter { ch } => match ch {
            Some(c) => {
                let ghost before = graph.characters@;
                graph.characters.push(copy_character(c));
                assert(chars_view(graph.characters@) =~= chars_view(before).push(character_view(*c)));
                true
            },
            None => false,
        },
        CollabOp::RemoveCharacter { char_id } => {
            drop_characters(graph, *char_id);
            true
        },
        CollabOp::EditCharacter { ch } => match ch {
            Some(c) => match first_character_index(&graph.characters, c.id) {
                Some(j) => {
                    let ghost before = graph.characters@;
                    graph.characters.set(j, copy_character(c));
                    assert(chars_view(graph.characters@) =~= chars_view(before).update(j as int, character_view(*c)));
                    true
                },
                None => false,
            },
            None => false,
        },
    }
}

// ------------------------------------------------------------ diff

/// An operation as values.
pub enum OpV {
    AddNode(Option<NodeV>),
    RemoveNode(u128),
    MoveNode(u128, Seq<i32>),
    AddConnection(Option<Connection>),
    RemoveConnection(u128),
    EditNodeField(u128, Option<NodeV>),
    AddVariable(Option<VariableV>),
    RemoveVariable(u128),
    EditVariable(Option<VariableV>),
    AddCharacter(Option<CharacterV>),
    RemoveCharacter(u128),
    EditCharacter(Option<CharacterV>),
}

pub open spec fn op_view(op: CollabOp) -> OpV {
    match op {
        CollabOp::AddNode { node } => OpV::AddNode(match node { Some(n) => Some(node_view(n)), None => None }),
        CollabOp::RemoveNode { node_id } => OpV::RemoveNode(node_id),
        CollabOp::MoveNode { node_id, position } => OpV::MoveNode(node_id, position@),
        CollabOp::AddConnection { conn } => OpV::AddConnection(conn),
        CollabOp::RemoveConnection { connection_id } => OpV::RemoveConnection(connection_id),
        CollabOp::EditNodeField { node_id, node } => OpV::EditNodeField(
            node_id,
            match node { Some(n) => Some(node_view(n)), None => None },
        ),
        CollabOp::AddVariable { var } => OpV::AddVariable(match var { Some(v) => Some(variable_view(v)), None => None }),
        CollabOp::RemoveVariable { var_id } => OpV::RemoveVariable(var_id),
        CollabOp::EditVariable { var } => OpV::EditVariable(match var { Some(v) => Some(variable_view(v)), None => None }),
        CollabOp::AddCharacter { ch } => OpV::AddCharacter(match ch { Some(c) => Some(character_view(c)), None => None }),
        CollabOp::RemoveCharacter { char_id } => OpV::RemoveCharacter(char_id),
        CollabOp::EditCharacter { ch } => OpV::EditCharacter(match ch { Some(c) => Some(character_view(c)), None => None }),
    }
}

pub open spec fn ops_view(s: Seq<CollabOp>) -> Seq<OpV> {
    s.map_values(|o: CollabOp| op_view(o))
}

pub open spec fn conn_ids(cs: Seq<Connection>) -> Seq<u128> {
    cs.map_values(|c: Connection| c.id)
}

/// An `AddNode` for each node of `new` whose identifier `old` lacks, in order.
pub open spec fn added_nodes(old: Seq<NodeV>, new: Seq<NodeV>) -> Seq<OpV>
    decreases new.len(),
{
    if new.len() == 0 {
        seq![]
    } else {
        added_nodes(old, new.drop_last()) + if first_with(node_ids(old), new.last().id) < 0 {
            seq![OpV::AddNode(Some(new.last()))]
        } else {
            seq![]
        }
    }
}

/// A `RemoveNode` for each node of `old` whose identifier `new` lacks, in order.
pub open spec fn removed_nodes(old: Seq<NodeV>, new: Seq<NodeV>) -> Seq<OpV>
    decreases old.len(),
{
    if old.len() == 0 {
        seq![]
    } else {
        removed_nodes(old.drop_last(), new) + if first_with(node_ids(new), old.last().id) < 0 {
            seq![OpV::RemoveNode(old.last().id)]
        } else {
            seq![]
        }
    }
}

/// For a node `n` that `old` also has: a `MoveNode` when its position
/// changed, then an `EditNodeField` carrying it when its data changed.
pub open spec fn changed_node(old: Seq<NodeV>, n: NodeV) -> Seq<OpV> {
    let j = first_with(node_ids(old), n.id);
    if j < 0 {
        seq![]
    } else {
        (if old[j].position != n.position { seq![OpV::MoveNode(n.id, n.position)] } else { seq![] })
            + (if old[j].kind != n.kind { seq![OpV::EditNodeField(n.id, Some(n))] } else { seq![] })
    }
}

pub open spec fn changed_nodes(old: Seq<NodeV>, new: Seq<NodeV>) -> Seq<OpV>
    decreases new.len(),
{
    if new.len() == 0 {
        seq![]
    } else {
        changed_nodes(old, new.drop_last()) + changed_node(old, new.last())
    }
}

/// An `AddConnection` for each connection of `new` whose identifier `old` lacks.
pub open spec fn added_conns(old: Seq<Connection>, new: Seq<Connection>) -> Seq<OpV>
    decreases new.len(),
{
    if new.len() == 0 {
        seq![]
    } else {
        added_conns(old, new.drop_last()) + if first_with(conn_ids(old), new.last().id) < 0 {
            seq![OpV::AddConnection(Some(new.last()))]
        } else {
            seq![]
        }
    }
}

/// A `RemoveConnection` for each connection of `old` whose identifier `new` lacks.
pub open spec fn removed_conns(old: Seq<Connection>, new: Seq<Connection>) -> Seq<OpV>
    decreases old.len(),
{
    if old.len() == 0 {
        seq![]
    } else {
        removed_conns(old.drop_last(), new) + if first_with(conn_ids(new), old.last().id) < 0 {
            seq![OpV::RemoveConnection(old.last().id)]
        } else {
            seq![]
        }
    }
}

/// The operations that turn `a` into `b`: added nodes, removed nodes, moved
/// and edited nodes, added connections, removed connections.
pub open spec fn diff_ops(a: GraphV, b: GraphV) -> Seq<OpV> {
    added_nodes(a.nodes, b.nodes) + removed_nodes(a.nodes, b.nodes) + changed_nodes(a.nodes, b.nodes)
        + added_conns(a.connections, b.connections) + removed_conns(a.connections, b.connections)
}

fn push_op(ops: &mut Vec<CollabOp>, op: CollabOp)
    ensures
        ops_view(final(ops)@) == ops_view(old(ops)@).push(op_view(op)),
{
    let ghost before = ops@;
    ops.push(op);
    assert(ops_view(ops@) =~= ops_view(before).push(op_view(op)));
}

fn first_connection_index(cs: &Vec<Connection>, id: u128) -> (r: Option<usize>)
    ensures
        match r {
            Some(i) => first_with(conn_ids(cs@), id) == i as int && i < cs.len(),
            None => first_with(conn_ids(cs@), id) < 0,
        },
{
    let ghost ids = conn_ids(cs@);
    proof {
        lemma_first_with(ids, id);
    }
    let mut i: usize = 0;
    while i < cs.len()
        invariant
            i <= cs.len(),
            ids == conn_ids(cs@),
            ids.len() == cs.len(),
            forall|q: int| 0 <= q < cs.len() ==> #[trigger] ids[q] == cs@[q].id,
            first_with(ids, id) < 0 || first_with(ids, id) >= i,
            first_with(ids, id) < 0 ==> forall|j: int| 0 <= j < ids.len() ==> #[trigger] ids[j] != id,
            first_with(ids, id) >= 0 ==> first_with(ids, id) < ids.len() && ids[first_with(ids, id)] == id
                && forall|j: int| 0 <= j < first_with(ids, id) ==> #[trigger] ids[j] != id,
        decreases cs.len() - i,
    {
        if cs[i].id == id {
            assert(ids[i as int] == id);
            return Some(i);
        }
        i = i + 1;
    }
    None
}

fn diff_added_nodes(a: &DialogueGraph, b: &DialogueGraph, ops: &mut Vec<CollabOp>)
    ensures
        ops_view(final(ops)@) == ops_view(old(ops)@) + added_nodes(nodes_view(a.nodes@), nodes_view(b.nodes@)),
{
    let ghost ov = nodes_view(a.nodes@);
    let ghost nv = nodes_view(b.nodes@);
    let ghost start = ops_view(ops@);
    proof {
        lemma_nodes_view(b.nodes@);
    }
    let mut i: usize = 0;
    assert(nv.take(0) =~= Seq::<NodeV>::empty());
    assert(ops_view(ops@) =~= start + added_nodes(ov, nv.take(0)));
    while i < b.nodes.len()
        invariant
            i <= b.nodes.len(),
            ov == nodes_view(a.nodes@),
            nv == nodes_view(b.nodes@),
            nv.len() == b.nodes.len(),
            forall|k: int| 0 <= k < b.nodes.len() ==> #[trigger] nv[k] == node_view(b.nodes@[k]),
            ops_view(ops@) == start + added_nodes(ov, nv.take(i as int)),
        decreases b.nodes.len() - i,
    {
        let n = &b.nodes[i];
        assert(nv.take(i + 1).drop_last() =~= nv.take(i as int));
        assert(nv.take(i + 1).last() == node_view(*n));
        let ghost before = ops_view(ops@);
        match first_node_index(&a.nodes, n.id) {
            Some(_) => {
                assert(ops_view(ops@) =~= before + Seq::<OpV>::empty());
            },
            None => {
                push_op(ops, CollabOp::AddNode { node: Some(copy_node(n)) });
            },
        }
        assert(ops_view(ops@) =~= start + added_nodes(ov, nv.take(i + 1)));
        i = i + 1;
    }
    assert(nv.take(b.nodes.len() as int) =~= nv);
}

fn diff_removed_nodes(a: &DialogueGraph, b: &DialogueGraph, ops: &mut Vec<CollabOp>)
    ensures
        ops_view(final(ops)@) == ops_view(old(ops)@) + removed_nodes(nodes_view(a.nodes@), nodes_view(b.nodes@)),
{
    let ghost ov = nodes_view(a.nodes@);
    let ghost nv = nodes_view(b.nodes@);
    let ghost start = ops_view(ops@);
    proof {
        lemma_nodes_view(a.nodes@);
    }
    let mut i: usize = 0;
    assert(ov.take(0) =~= Seq::<NodeV>::empty());
    assert(ops_view(ops@) =~= start + removed_nodes(ov.take(0), nv));
    while i < a.nodes.len()
        invariant
            i <= a.nodes.len(),
            ov == nodes_view(a.nodes@),
            nv == nodes_view(b.nodes@),
            ov.len() == a.nodes.len(),
            forall|k: int| 0 <= k < a.nodes.len() ==> #[trigger] ov[k] == node_view(a.nodes@[k]),
            ops_view(ops@) == start + removed_nodes(ov.take(i as int), nv),
        decreases a.nodes.len() - i,
    {
        let id = a.nodes[i].id;
        assert(ov.take(i + 1).drop_last() =~= ov.take(i as int));
        assert(ov.take(i + 1).last() == node_view(a.nodes@[i as int]));
        let ghost before = ops_view(ops@);
        match first_node_index(&b.nodes, id) {
            Some(_) => {
                assert(ops_view(ops@) =~= before + Seq::<OpV>::empty());
            },
            None => {
                push_op(ops, CollabOp::RemoveNode { node_id: id });
            },
        }
        assert(ops_view(ops@) =~= start + removed_nodes(ov.take(i + 1), nv));
        i = i + 1;
    }
    assert(ov.take(a.nodes.len() as int) =~= ov);
}

fn diff_changed_nodes(a: &DialogueGraph, b: &DialogueGraph, ops: &mut Vec<CollabOp>)
    ensures
        ops_view(final(ops)@) == ops_view(old(ops)@) + changed_nodes(nodes_view(a.nodes@), nodes_view(b.nodes@)),
{
    let ghost ov = nodes_view(a.nodes@);
    let ghost nv = nodes_view(b.nodes@);
    let ghost start = ops_view(ops@);
    proof {
        lemma_nodes_view(a.nodes@);
        lemma_nodes_view(b.nodes@);
    }
    let mut i: usize = 0;
    assert(nv.take(0) =~= Seq::<NodeV>::empty());
    assert(ops_view(ops@) =~= start + changed_nodes(ov, nv.take(0)));
    while i < b.nodes.len()
        invariant
            i <= b.nodes.len(),
            ov == nodes_view(a.nodes@),
            nv == nodes_view(b.nodes@),
            ov.len() == a.nodes.len(),
            nv.len() == b.nodes.len(),
            forall|k: int| 0 <= k < a.nodes.len() ==> #[trigger] ov[k] == node_view(a.nodes@[k]),
            forall|k: int| 0 <= k < b.nodes.len() ==> #[trigger] nv[k] == node_view(b.nodes@[k]),
            ops_view(ops@) == start + changed_nodes(ov, nv.take(i as int)),
        decreases b.nodes.len() - i,
    {
        let n = &b.nodes[i];
        assert(nv.take(i + 1).drop_last() =~= nv.take(i as int));
        assert(nv.take(i + 1).last() == node_view(*n));
        let ghost before = ops_view(ops@);
        match first_node_index(&a.nodes, n.id) {
            None => {
                assert(ops_view(ops@) =~= before + Seq::<OpV>::empty());
            },
            Some(j) => {
                let o = &a.nodes[j];
                assert(ov[j as int] == node_view(*o));
                let moved = o.position[0] != n.position[0] || o.position[1] != n.position[1];
                proof {
                    if moved {
                        assert(o.position@[0] != n.position@[0] || o.position@[1] != n.position@[1]);
                    } else {
                        assert(o.position@ =~= n.position@);
                    }
                }
                if moved {
                    push_op(ops, CollabOp::MoveNode { node_id: n.id, position: n.position });
                }
                let ghost mid = ops_view(ops@);
                if !same_kind(&o.node_type, &n.node_type) {
                    push_op(ops, CollabOp::EditNodeField { node_id: n.id, node: Some(copy_node(n)) });
                }
                assert(ops_view(ops@) =~= before + changed_node(ov, node_view(*n)));
            },
        }
        assert(ops_view(ops@) =~= start + changed_nodes(ov, nv.take(i + 1)));
        i = i + 1;
    }
    assert(nv.take(b.nodes.len() as int) =~= nv);
}

fn diff_connections(a: &DialogueGraph, b: &DialogueGraph, ops: &mut Vec<CollabOp>)
    ensures
        ops_view(final(ops)@) == ops_view(old(ops)@) + added_conns(a.connections@, b.connections@)
            + removed_conns(a.connections@, b.connections@),
{
    let ghost oc = a.connections@;
    let ghost nc = b.connections@;
    let ghost start = ops_view(ops@);
    let mut i: usize = 0;
    assert(nc.take(0) =~= Seq::<Connection>::empty());
    assert(ops_view(ops@) =~= start + added_conns(oc, nc.take(0)));
    while i < b.connections.len()
        invariant
            i <= b.connections.len(),
            oc == a.connections@,
            nc == b.connections@,
            ops_view(ops@) == start + added_conns(oc, nc.take(i as int)),
        decreases b.connections.len() - i,
    {
        let c = b.connections[i];
        assert(nc.take(i + 1).drop_last() =~= nc.take(i as int));
        let ghost before = ops_view(ops@);
        match first_connection_index(&a.connections, c.id) {
            Some(_) => {
                assert(ops_view(ops@) =~= before + Seq::<OpV>::empty());
            },
            None => {
                push_op(ops, CollabOp::AddConnection { conn: Some(c) });
            },
        }
        assert(ops_view(ops@) =~= start + added_conns(oc, nc.take(i + 1)));
        i = i + 1;
    }
    assert(nc.take(b.connections.len() as int) =~= nc);
    let ghost mid = ops_view(ops@);
    let mut k: usize = 0;
    assert(oc.take(0) =~= Seq::<Connection>::empty());
    assert(ops_view(ops@) =~= mid + removed_conns(oc.take(0), nc));
    while k < a.connections.len()
        invariant
            k <= a.connections.len(),
            oc == a.connections@,
            nc == b.connections@,
            ops_view(ops@) == mid + removed_conns(oc.take(k as int), nc),
        decreases a.connections.len() - k,
    {
        let id = a.connections[k].id;
        assert(oc.take(k + 1).drop_last() =~= oc.take(k as int));
        let ghost before = ops_view(ops@);
        match first_connection_index(&b.connections, id) {
            Some(_) => {
                assert(ops_view(ops@) =~= before + Seq::<OpV>::empty());
            },
            None => {
                push_op(ops, CollabOp::RemoveConnection { connection_id: id });
            },
        }
        assert(ops_view(ops@) =~= mid + removed_conns(oc.take(k + 1), nc));
        k = k + 1;
    }
    assert(oc.take(a.connections.len() as int) =~= oc);
}

/// The operations that turn `old` into `new` (see `diff_ops`); a node whose
/// data changed is sent whole, the last writer winning.
pub fn diff_to_ops(old: &DialogueGraph, new: &DialogueGraph) -> (ops: Vec<CollabOp>)
    ensures
        ops_view(ops@) == diff_ops(graph_view(*old), graph_view(*new)),
{
    let mut ops: Vec<CollabOp> = Vec::new();
    assert(ops_view(ops@) =~= Seq::<OpV>::empty());
    diff_added_nodes(old, new, &mut ops);
    diff_removed_nodes(old, new, &mut ops);
    diff_changed_nodes(old, new, &mut ops);
    diff_connections(old, new, &mut ops);
    assert(ops_view(ops@) =~= diff_ops(graph_view(*old), graph_view(*new)));
    ops
}

proof fn lemma_first_with_found(ids: Seq<u128>, k: int)
    requires
        0 <= k < ids.len(),
    ensures
        first_with(ids, ids[k]) >= 0,
{
    lemma_first_with(ids, ids[k]);
}

proof fn lemma_nothing_added(ns: Seq<NodeV>, m: int)
    requires
        0 <= m <= ns.len(),
    ensures
        added_nodes(ns, ns.take(m)) == Seq::<OpV>::empty(),
    decreases m,
{
    if m > 0 {
        assert(ns.take(m).drop_last() =~= ns.take(m - 1));
        lemma_nothing_added(ns, m - 1);
        lemma_first_with_found(node_ids(ns), m - 1);
        assert(added_nodes(ns, ns.take(m)) =~= Seq::<OpV>::empty());
    }
}

proof fn lemma_nothing_removed(ns: Seq<NodeV>, m: int)
    requires
        0 <= m <= ns.len(),
    ensures
        removed_nodes(ns.take(m), ns) == Seq::<OpV>::empty(),
    decreases m,
{
    if m > 0 {
        assert(ns.take(m).drop_last() =~= ns.take(m - 1));
        lemma_nothing_removed(ns, m - 1);
        lemma_first_with_found(node_ids(ns), m - 1);
        assert(removed_nodes(ns.take(m), ns) =~= Seq::<OpV>::empty());
    }
}

/// Nodes that share an identifier agree in position and data.
pub open spec fn same_id_same_node(ns: Seq<NodeV>) -> bool {
    forall|i: int, j: int|
        #![trigger ns[i], ns[j]]
        0 <= i < ns.len() && 0 <= j < ns.len() && ns[i].id == ns[j].id
            ==> ns[i].position == ns[j].position && ns[i].kind == ns[j].kind
}

proof fn lemma_nothing_changed(ns: Seq<NodeV>, m: int)
    requires
        0 <= m <= ns.len(),
        same_id_same_node(ns),
    ensures
        changed_nodes(ns, ns.take(m)) == Seq::<OpV>::empty(),
    decreases m,
{
    if m > 0 {
        assert(ns.take(m).drop_last() =~= ns.take(m - 1));
        lemma_nothing_changed(ns, m - 1);
        lemma_first_with_found(node_ids(ns), m - 1);
        lemma_first_with(node_ids(ns), ns[m - 1].id);
        let j = first_with(node_ids(ns), ns[m - 1].id);
        assert(node_ids(ns)[j] == ns[j].id);
        assert(ns[j].position == ns[m - 1].position && ns[j].kind == ns[m - 1].kind);
        assert(changed_node(ns, ns[m - 1]) =~= Seq::<OpV>::empty());
        assert(changed_nodes(ns, ns.take(m)) =~= Seq::<OpV>::empty());
    }
}

proof fn lemma_no_connection_added(cs: Seq<Connection>, m: int)
    requires
        0 <= m <= cs.len(),
    ensures
        added_conns(cs, cs.take(m)) == Seq::<OpV>::empty(),
    decreases m,
{
    if m > 0 {
        assert(cs.take(m).drop_last() =~= cs.take(m - 1));
        lemma_no_connection_added(cs, m - 1);
        lemma_first_with_found(conn_ids(cs), m - 1);
        assert(added_conns(cs, cs.take(m)) =~= Seq::<OpV>::empty());
    }
}

proof fn lemma_no_connection_removed(cs: Seq<Connection>, m: int)
    requires
        0 <= m <= cs.len(),
    ensures
        removed_conns(cs.take(m), cs) == Seq::<OpV>::empty(),
    decreases m,
{
    if m > 0 {
        assert(cs.take(m).drop_last() =~= cs.take(m - 1));
        lemma_no_connection_removed(cs, m - 1);
        lemma_first_with_found(conn_ids(cs), m - 1);
        assert(removed_conns(cs.take(m), cs) =~= Seq::<OpV>::empty());
    }
}

/// Comparing a graph with itself yields no operation, provided that nodes
/// sharing an identifier agree in position and data (as they do when the
/// identifiers are distinct).
pub proof fn law_diff_with_itself_is_empty(g: GraphV)
    requires
        same_id_same_node(g.nodes),
    ensures
        diff_ops(g, g) == Seq::<OpV>::empty(),
{
    assert(g.nodes.take(g.nodes.len() as int) =~= g.nodes);
    assert(g.connections.take(g.connections.len() as int) =~= g.connections);
    lemma_nothing_added(g.nodes, g.nodes.len() as int);
    lemma_nothing_removed(g.nodes, g.nodes.len() as int);
    lemma_nothing_changed(g.nodes, g.nodes.len() as int);
    lemma_no_connection_added(g.connections, g.connections.len() as int);
    lemma_no_connection_removed(g.connections, g.connections.len() as int);
    assert(diff_ops(g, g) =~= Seq::<OpV>::empty());
}

} // verus!
