//! A generic structured document: scalars, lists and tables of named fields,
//! as a parser of a markup language hands them over.

use vstd::prelude::*;

verus! {

/// One value of a structured document.
#[derive(Debug, PartialEq, Eq)]
pub enum Node {
    Null,
    Bool(bool),
    /// A number; its value is not kept, since no rule field is a number.
    Number,
    Text(String),
    List(Vec<Node>),
    /// The entries of a mapping, in document order; a key may be any value.
    Table(Vec<(Node, Node)>),
    /// A value that carries a type tag; the tag itself is not kept.
    Tagged(Box<Node>),
}

pub enum NodeView {
    Null,
    Bool(bool),
    Number,
    Text(Seq<char>),
    List(Seq<NodeView>),
    Table(Seq<(NodeView, NodeView)>),
    Tagged(Box<NodeView>),
}

pub open spec fn node_view(node: Node) -> NodeView
    decreases node,
{
    match node {
        Node::Null => NodeView::Null,
        Node::Bool(b) => NodeView::Bool(b),
        Node::Number => NodeView::Number,
        Node::Text(s) => NodeView::Text(s@),
        Node::List(items) => NodeView::List(
            Seq::new(
                items@.len(),
                |i: int|
                    if 0 <= i < items@.len() {
                        node_view(items@[i])
                    } else {
                        NodeView::Null
                    },
            ),
        ),
        Node::Table(entries) => NodeView::Table(
            Seq::new(
                entries@.len(),
                |i: int|
                    if 0 <= i < entries@.len() {
                        (node_view(entries@[i].0), node_view(entries@[i].1))
                    } else {
                        (NodeView::Null, NodeView::Null)
                    },
            ),
        ),
        Node::Tagged(inner) => NodeView::Tagged(Box::new(node_view(*inner))),
    }
}

impl View for Node {
    type V = NodeView;

    open spec fn view(&self) -> NodeView {
        node_view(*self)
    }
}

/// The value of the first entry whose key is the string `key`.
pub open spec fn entry_of(entries: Seq<(NodeView, NodeView)>, key: Seq<char>) -> Option<NodeView>
    decreases entries.len(),
{
    if entries.len() == 0 {
        None
    } else if entries[0].0 == NodeView::Text(key) {
        Some(entries[0].1)
    } else {
        entry_of(entries.drop_first(), key)
    }
}

impl NodeView {
    /// The value under its tags, if it has any.
    pub open spec fn untagged(self) -> NodeView
        decreases self,
    {
        match self {
            NodeView::Tagged(inner) => inner.untagged(),
            _ => self,
        }
    }

    /// The string that the value is, tags aside.
    pub open spec fn text(self) -> Option<Seq<char>> {
        match self.untagged() {
            NodeView::Text(t) => Some(t),
            _ => None,
        }
    }

    /// The items of the list that the value is, tags aside.
    pub open spec fn items(self) -> Option<Seq<NodeView>> {
        match self.untagged() {
            NodeView::List(items) => Some(items),
            _ => None,
        }
    }

    /// The field `key` of the table that the value is, tags aside. A key that
    /// carries a tag, or is no string, names no field.
    pub open spec fn field(self, key: Seq<char>) -> Option<NodeView> {
        match self.untagged() {
            NodeView::Table(entries) => entry_of(entries, key),
            _ => None,
        }
    }
}

impl Node {
    /// The value under its tags.
    pub fn untagged(&self) -> (r: &Node)
        ensures
            r@ == self@.untagged(),
            !(r is Tagged),
        decreases self,
    {
        match self {
            Node::Tagged(inner) => inner.untagged(),
            _ => self,
        }
    }

    /// The string that the value is, if it is one.
    pub fn as_text(&self) -> (r: Option<&String>)
        ensures
            match r {
                Some(s) => self@.text() == Some(s@),
                None => self@.text() is None,
            },
    {
        match self.untagged() {
            Node::Text(s) => Some(s),
            _ => None,
        }
    }

    /// The items of the list that the value is, if it is one.
    pub fn as_items(&self) -> (r: Option<&Vec<Node>>)
        ensures
            match r {
                Some(v) => self@.items() == Some(node_views(v@)),
                None => self@.items() is None,
            },
    {
        match self.untagged() {
            Node::List(items) => {
                assert(node_view(Node::List(*items))->List_0 =~= node_views(items@));
                Some(items)
            },
            _ => None,
        }
    }

    /// The field `key` of the table that the value is, if it is one and has
    /// that field.
    pub fn get(&self, key: &str) -> (r: Option<&Node>)
        ensures
            match r {
                Some(n) => self@.field(key@) == Some(n@),
                None => self@.field(key@) is None,
            },
    {
        match self.untagged() {
            Node::Table(entries) => {
                assert(node_view(Node::Table(*entries))->Table_0 =~= pair_views(entries@));
                find_entry(entries, key)
            },
            _ => None,
        }
    }

    /// Whether the value is the string `wanted`, with no tag on it.
    fn is_text(&self, wanted: &String) -> (r: bool)
        ensures
            r == (self@ == NodeView::Text(wanted@)),
    {
        match self {
            Node::Text(name) => *name == *wanted,
            _ => false,
        }
    }
}

/// The value of the first entry whose key is the string `key`.
fn find_entry<'a>(entries: &'a Vec<(Node, Node)>, key: &str) -> (r: Option<&'a Node>)
    ensures
        match r {
            Some(n) => entry_of(pair_views(entries@), key@) == Some(n@),
            None => entry_of(pair_views(entries@), key@) is None,
        },
{
    let wanted = key.to_owned();
    let ghost all = pair_views(entries@);
    let mut i: usize = 0;
    assert(all.skip(0) =~= all);
    while i < entries.len()
        invariant
            i <= entries.len(),
            wanted@ == key@,
            all == pair_views(entries@),
            entry_of(all, key@) == entry_of(all.skip(i as int), key@),
        decreases entries.len() - i,
    {
        let found = entries[i].0.is_text(&wanted);
        proof {
            let here = all.skip(i as int);
            assert(here[0] == all[i as int]);
            assert(here.drop_first() =~= all.skip(i as int + 1));
        }
        if found {
            return Some(&entries[i].1);
        }
        i += 1;
    }
    None
}

/// The views of the entries of a table, in order.
pub open spec fn pair_views(v: Seq<(Node, Node)>) -> Seq<(NodeView, NodeView)> {
    v.map_values(|p: (Node, Node)| (p.0@, p.1@))
}

/// The views of a list of values, in order.
pub open spec fn node_views(v: Seq<Node>) -> Seq<NodeView> {
    v.map_values(|n: Node| n@)
}

} // verus!
