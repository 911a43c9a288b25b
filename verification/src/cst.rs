//! The concrete syntax tree that the transformer reads: what a grammar
//! engine reports of each node, held as plain values.

use crate::text::str_eq;
use vstd::prelude::*;

verus! {

/// A position in the source text, by row and column, both counted from zero.
#[derive(Debug, Clone, Copy, PartialEq, Eq, Structural)]
pub struct CstPoint {
    pub row: usize,
    pub column: usize,
}

/// The half-open range of source text that a node covers, in bytes and in
/// rows and columns.
#[derive(Debug, Clone, Copy, PartialEq, Eq, Structural)]
pub struct CstRange {
    pub start_byte: usize,
    pub end_byte: usize,
    pub start_point: CstPoint,
    pub end_point: CstPoint,
}

/// A node of the concrete syntax tree.
#[derive(Debug)]
pub struct CstNode {
    /// The name of the grammar rule that produced the node.
    pub kind: String,
    /// Whether the node stands for a named rule of the grammar.
    pub named: bool,
    /// Whether the node marks text that the grammar could not place.
    pub error: bool,
    /// Whether the node stands in for a required token that is absent.
    pub missing: bool,
    /// The text that the node covers.
    pub range: CstRange,
    /// The children of the node, in source order.
    pub children: Vec<CstChild>,
}

/// A child of a node, with the name of the field that it fills, if any.
#[derive(Debug)]
pub struct CstChild {
    pub field: Option<String>,
    pub node: CstNode,
}

/// The text of the name of a field, where one is given.
pub open spec fn field_text(field: Option<&str>) -> Option<Seq<char>> {
    match field {
        Some(name) => Some(name@),
        None => None,
    }
}

impl CstChild {
    /// Whether this child fills the field called `name`.
    pub open spec fn fills(self, name: Seq<char>) -> bool {
        self.field matches Some(f) && f@ == name
    }

    /// Whether this child fills the field called `name`.
    pub fn has_field(&self, name: &str) -> (b: bool)
        ensures
            b == self.fills(name@),
    {
        match &self.field {
            Some(f) => str_eq(f.as_str(), name),
            None => false,
        }
    }
}

impl CstNode {
    /// The index of the first child that fills the field `name`, looking at
    /// the first `upto` children only; `None` when none of them does.
    pub open spec fn field_index_upto(self, name: Seq<char>, upto: int) -> Option<int>
        decreases upto,
    {
        if upto <= 0 || upto > self.children.len() {
            None
        } else {
            match self.field_index_upto(name, upto - 1) {
                Some(i) => Some(i),
                None => if self.children[upto - 1].fills(name) {
                    Some(upto - 1)
                } else {
                    None
                },
            }
        }
    }

    /// The index of the first child that fills the field `name`.
    pub open spec fn field_index(self, name: Seq<char>) -> Option<int> {
        self.field_index_upto(name, self.children.len() as int)
    }

    /// Whether a child fills the field `name`.
    pub open spec fn has_field(self, name: Seq<char>) -> bool {
        self.field_index(name) is Some
    }

    /// The first child that fills the field `name`.
    pub open spec fn field(self, name: Seq<char>) -> CstNode
        recommends
            self.has_field(name),
    {
        self.children[self.field_index(name)->0].node
    }

    /// An index that `field_index_upto` gives lies among the children that
    /// were looked at, and the child there fills the field.
    pub proof fn lemma_field_index(self, name: Seq<char>, upto: int)
        ensures
            self.field_index_upto(name, upto) matches Some(i) ==> 0 <= i < upto && i
                < self.children.len() && self.children[i].fills(name),
        decreases upto,
    {
        if 0 < upto <= self.children.len() {
            self.lemma_field_index(name, upto - 1);
        }
    }

    /// The first child that fills the field `name`, if there is one.
    pub fn child_by_field_name(&self, name: &str) -> (r: Option<&CstNode>)
        ensures
            r is Some <==> self.has_field(name@),
            r matches Some(child) ==> *child == self.field(name@),
    {
        let mut i: usize = 0;
        while i < self.children.len()
            invariant
                i <= self.children.len(),
                self.field_index_upto(name@, i as int) is None,
            decreases self.children.len() - i,
        {
            if self.children[i].has_field(name) {
                proof {
                    self.lemma_found_stays(name@, i as int + 1, self.children.len() as int);
                }
                return Some(&self.children[i].node);
            }
            i += 1;
        }
        None
    }

    /// Once a child that fills the field is found, looking at more children
    /// finds the same one.
    pub proof fn lemma_found_stays(self, name: Seq<char>, upto: int, more: int)
        requires
            0 <= upto <= more <= self.children.len(),
            self.field_index_upto(name, upto) is Some,
        ensures
            self.field_index_upto(name, more) == self.field_index_upto(name, upto),
        decreases more - upto,
    {
        if upto < more {
            self.lemma_found_stays(name, upto, more - 1);
        }
    }

    /// Whether the child at `i` is a named node and, where a field is asked
    /// for, fills that field.
    pub open spec fn picked(self, field: Option<Seq<char>>, i: int) -> bool {
        &&& self.children[i].node.named
        &&& field matches Some(name) ==> self.children[i].fills(name)
    }

    /// The indices, in order, of the children among the first `upto` that
    /// are picked.
    pub open spec fn picks_upto(self, field: Option<Seq<char>>, upto: int) -> Seq<int>
        decreases upto,
    {
        if upto <= 0 || upto > self.children.len() {
            Seq::empty()
        } else if self.picked(field, upto - 1) {
            self.picks_upto(field, upto - 1).push(upto - 1)
        } else {
            self.picks_upto(field, upto - 1)
        }
    }

    /// The indices, in order, of the named children, or of those of them
    /// that fill the field `field`.
    pub open spec fn picks(self, field: Option<Seq<char>>) -> Seq<int> {
        self.picks_upto(field, self.children.len() as int)
    }

    /// Whether `nodes` are the children of `self` at the indices `at`.
    pub open spec fn are_children(self, nodes: Seq<&CstNode>, at: Seq<int>) -> bool {
        &&& nodes.len() == at.len()
        &&& forall|k: int|
            0 <= k < at.len() ==> 0 <= (#[trigger] at[k]) < self.children.len() && *nodes[k]
                == self.children[at[k]].node
    }

    /// The named children, or those of them that fill the field `field`, in
    /// order.
    pub fn pick(&self, field: Option<&str>) -> (r: Vec<&CstNode>)
        ensures
            self.are_children(r@, self.picks(field_text(field))),
    {
        let ghost wanted: Option<Seq<char>> = field_text(field);
        let mut r: Vec<&CstNode> = Vec::new();
        let mut i: usize = 0;
        while i < self.children.len()
            invariant
                i <= self.children.len(),
                wanted == field_text(field),
                self.are_children(r@, self.picks_upto(wanted, i as int)),
            decreases self.children.len() - i,
        {
            let child = &self.children[i];
            let in_field = match field {
                Some(name) => child.has_field(name),
                None => true,
            };
            if child.node.named && in_field {
                r.push(&child.node);
            }
            i += 1;
        }
        r
    }

    /// The named children that fill the field `name`, in order.
    pub fn named_children_by_field_name(&self, name: &str) -> (r: Vec<&CstNode>)
        ensures
            self.are_children(r@, self.picks(Some(name@))),
    {
        self.pick(Some(name))
    }

    /// The named children, in order.
    pub fn named_children(&self) -> (r: Vec<&CstNode>)
        ensures
            self.are_children(r@, self.picks(None)),
    {
        self.pick(None)
    }
}

} // verus!
