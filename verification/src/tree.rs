//! The JSON-like syntax tree that extraction runs over, with defensive
//! accessors: every lookup answers present-or-absent and never aborts.

use vstd::prelude::*;

verus! {

/// A JSON-like syntax tree, as handed over by the external parser.
///
/// Only the shapes that extraction inspects are distinguished: string
/// values, ordered arrays, and ordered key/value objects. Every other
/// scalar (a number, a boolean, a null) is `Other`; extraction treats
/// such values as opaque.
#[derive(Debug, PartialEq, Eq)]
pub enum Node {
    /// A string value.
    Str(String),
    /// An ordered array of child nodes.
    Arr(Vec<Node>),
    /// An object: key/value pairs in source order.
    Obj(Vec<(String, Node)>),
    /// Any other scalar; never inspected.
    Other,
}

/// The mathematical model of a `Node`.
pub enum NodeView {
    Str(Seq<char>),
    Arr(Seq<NodeView>),
    Obj(Seq<(Seq<char>, NodeView)>),
    Other,
}

/// The model of a node.
pub open spec fn node_view(n: Node) -> NodeView
    decreases n,
{
    match n {
        Node::Str(s) => NodeView::Str(s@),
        Node::Arr(items) => NodeView::Arr(nodes_view(items@)),
        Node::Obj(fields) => NodeView::Obj(pairs_view(fields@)),
        Node::Other => NodeView::Other,
    }
}

/// The model of a sequence of nodes, elementwise.
pub open spec fn nodes_view(s: Seq<Node>) -> Seq<NodeView>
    decreases s,
{
    if s.len() == 0 {
        Seq::empty()
    } else {
        seq![node_view(s[0])] + nodes_view(s.drop_first())
    }
}

/// The model of a sequence of key/value pairs, elementwise.
pub open spec fn pairs_view(s: Seq<(String, Node)>) -> Seq<(Seq<char>, NodeView)>
    decreases s,
{
    if s.len() == 0 {
        Seq::empty()
    } else {
        seq![(s[0].0@, node_view(s[0].1))] + pairs_view(s.drop_first())
    }
}

impl View for Node {
    type V = NodeView;

    open spec fn view(&self) -> NodeView {
        node_view(*self)
    }
}

pub proof fn lemma_nodes_view(s: Seq<Node>)
    ensures
        nodes_view(s).len() == s.len(),
        forall|i: int| 0 <= i < s.len() ==> #[trigger] nodes_view(s)[i] == node_view(s[i]),
    decreases s.len(),
{
    if s.len() > 0 {
        lemma_nodes_view(s.drop_first());
    }
}

pub proof fn lemma_pairs_view(s: Seq<(String, Node)>)
    ensures
        pairs_view(s).len() == s.len(),
        forall|i: int| 0 <= i < s.len()
            ==> #[trigger] pairs_view(s)[i] == (s[i].0@, node_view(s[i].1)),
    decreases s.len(),
{
    if s.len() > 0 {
        lemma_pairs_view(s.drop_first());
    }
}

/// The value under the first pair whose key is `name`, if any.
pub open spec fn field_of(fields: Seq<(Seq<char>, NodeView)>, name: Seq<char>) -> Option<NodeView>
    decreases fields.len(),
{
    if fields.len() == 0 {
        None
    } else if fields[0].0 == name {
        Some(fields[0].1)
    } else {
        field_of(fields.drop_first(), name)
    }
}

/// Field lookup on the model: defined on objects, absent on everything else.
pub open spec fn spec_get(n: NodeView, name: Seq<char>) -> Option<NodeView> {
    match n {
        NodeView::Obj(fields) => field_of(fields, name),
        _ => None,
    }
}

/// The string under a node, if it is a string node.
pub open spec fn as_str_v(n: NodeView) -> Option<Seq<char>> {
    match n {
        NodeView::Str(s) => Some(s),
        _ => None,
    }
}

/// The children of a node, if it is an array node.
pub open spec fn as_arr_v(n: NodeView) -> Option<Seq<NodeView>> {
    match n {
        NodeView::Arr(items) => Some(items),
        _ => None,
    }
}

/// The string under a field: present when the field exists and holds a
/// string node.
pub open spec fn spec_get_str(n: NodeView, name: Seq<char>) -> Option<Seq<char>> {
    match spec_get(n, name) {
        Some(m) => as_str_v(m),
        None => None,
    }
}

/// The children under a field: present when the field exists and holds
/// an array node.
pub open spec fn spec_get_arr(n: NodeView, name: Seq<char>) -> Option<Seq<NodeView>> {
    match spec_get(n, name) {
        Some(m) => as_arr_v(m),
        None => None,
    }
}

/// The model of an optional borrowed node.
pub open spec fn opt_view(r: Option<&Node>) -> Option<NodeView> {
    match r {
        Some(m) => Some(node_view(*m)),
        None => None,
    }
}

/// Relies on `str`'s `PartialEq`: strings are equal exactly when their
/// character sequences are equal.
#[verifier::external_body]
pub(crate) fn str_eq(a: &str, b: &str) -> (r: bool)
    ensures
        r == (a@ == b@),
{
    a == b
}

impl Node {
    /// Looks up a field by name; `None` on a missing field or a non-object.
    pub fn get<'a>(&'a self, name: &str) -> (r: Option<&'a Node>)
        ensures
            opt_view(r) == spec_get(self@, name@),
    {
        match self {
            Node::Obj(fields) => {
                proof {
                    lemma_pairs_view(fields@);
                    assert(pairs_view(fields@).skip(0) =~= pairs_view(fields@));
                }
                let ghost all: Seq<(Seq<char>, NodeView)> = pairs_view(fields@);
                let n = fields.len();
                for i in 0..n
                    invariant
                        n == fields.len(),
                        all == pairs_view(fields@),
                        all.len() == n,
                        forall|j: int| 0 <= j < n
                            ==> #[trigger] all[j] == (fields@[j].0@, node_view(fields@[j].1)),
                        field_of(all, name@) == field_of(all.skip(i as int), name@),
                        self@ == NodeView::Obj(all),
                {
                    if str_eq(fields[i].0.as_str(), name) {
                        assert(all.skip(i as int)[0] == all[i as int]);
                        return Some(&fields[i].1);
                    }
                    proof {
                        assert(all.skip(i as int)[0] == all[i as int]);
                        assert(all.skip(i as int).drop_first() =~= all.skip(i + 1));
                    }
                }
                assert(all.skip(n as int) =~= Seq::<(Seq<char>, NodeView)>::empty());
                None
            },
            _ => None,
        }
    }

    /// The string under this node, if it is a string node.
    pub fn as_str(&self) -> (r: Option<&String>)
        ensures
            match r {
                Some(s) => as_str_v(self@) == Some(s@),
                None => as_str_v(self@) is None,
            },
    {
        match self {
            Node::Str(s) => Some(s),
            _ => None,
        }
    }

    /// The children under this node, if it is an array node.
    pub fn as_arr(&self) -> (r: Option<&Vec<Node>>)
        ensures
            match r {
                Some(items) => as_arr_v(self@) == Some(nodes_view(items@)),
                None => as_arr_v(self@) is None,
            },
    {
        match self {
            Node::Arr(items) => Some(items),
            _ => None,
        }
    }

    /// The string under a field; `None` when the field is missing or does
    /// not hold a string node.
    pub fn get_str<'a>(&'a self, name: &str) -> (r: Option<&'a String>)
        ensures
            match r {
                Some(s) => spec_get_str(self@, name@) == Some(s@),
                None => spec_get_str(self@, name@) is None,
            },
    {
        match self.get(name) {
            Some(m) => m.as_str(),
            None => None,
        }
    }

    /// The children under a field; `None` when the field is missing or
    /// does not hold an array node.
    pub fn get_arr<'a>(&'a self, name: &str) -> (r: Option<&'a Vec<Node>>)
        ensures
            match r {
                Some(items) => spec_get_arr(self@, name@) == Some(nodes_view(items@)),
                None => spec_get_arr(self@, name@) is None,
            },
    {
        match self.get(name) {
            Some(m) => m.as_arr(),
            None => None,
        }
    }
}

} // verus!
