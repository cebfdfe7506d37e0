//! The routers in a service's `wan.via`: a node, or a node and one of its networks.

use vstd::prelude::*;

use crate::text::{chars_of, find_char, push_str, to_string};
use crate::types::identifier::{
    identifier_error_text, identifier_outcome, nested_error_text, nested_outcome, Identifier, NestedIdentifier,
    ParseIdentifierError, ParseNestedIdentifierError,
};
use crate::types::schema_helpers::{OneOrManyUnique, SameValue};

verus! {

broadcast use vstd::seq_lib::group_seq_properties;

/// Why a string is not a `wan.via` entry.
#[derive(Debug, Clone, Copy)]
pub enum ParseWanViaTargetError {
    InvalidIdentifier(ParseIdentifierError),
    InvalidNested(ParseNestedIdentifierError),
}

/// A router that exposes a service on its WAN zone.
#[derive(Debug, Hash)]
pub enum WanViaTarget {
    Bare(Identifier),
    Qualified(NestedIdentifier),
}

/// What a `WanViaTarget` stands for.
pub enum WanViaTargetView {
    Bare(Seq<char>),
    Qualified(Seq<char>, Seq<char>),
}

impl View for WanViaTarget {
    type V = WanViaTargetView;

    open spec fn view(&self) -> WanViaTargetView {
        match self {
            WanViaTarget::Bare(id) => WanViaTargetView::Bare(id@),
            WanViaTarget::Qualified(n) => WanViaTargetView::Qualified(n.node@, n.local@),
        }
    }
}

/// The node a target names.
pub open spec fn via_node(t: WanViaTargetView) -> Seq<char> {
    match t {
        WanViaTargetView::Bare(n) => n,
        WanViaTargetView::Qualified(n, _) => n,
    }
}

/// The text of a target: `Node` or `Node.Network`.
pub open spec fn via_text(t: WanViaTargetView) -> Seq<char> {
    match t {
        WanViaTargetView::Bare(n) => n,
        WanViaTargetView::Qualified(n, l) => n + seq!['.'] + l,
    }
}

/// `r` is what parsing `s` gives: a qualified target if `s` holds a `.`, else a bare one.
pub open spec fn wan_via_outcome(s: Seq<char>, r: Result<WanViaTarget, ParseWanViaTargetError>) -> bool {
    if s.contains('.') {
        match r {
            Ok(WanViaTarget::Qualified(n)) => nested_outcome(s, Ok(n)),
            Err(ParseWanViaTargetError::InvalidNested(e)) => nested_outcome(s, Err(e)),
            _ => false,
        }
    } else {
        match r {
            Ok(WanViaTarget::Bare(id)) => identifier_outcome(s, Ok(id)),
            Err(ParseWanViaTargetError::InvalidIdentifier(e)) => identifier_outcome(s, Err(e)),
            _ => false,
        }
    }
}

impl Clone for WanViaTarget {
    fn clone(&self) -> (r: Self)
        ensures
            r == *self,
    {
        match self {
            WanViaTarget::Bare(id) => WanViaTarget::Bare(id.clone()),
            WanViaTarget::Qualified(n) => WanViaTarget::Qualified(n.clone()),
        }
    }
}

impl PartialEq for WanViaTarget {
    fn eq(&self, other: &Self) -> (r: bool) {
        match (self, other) {
            (WanViaTarget::Bare(a), WanViaTarget::Bare(b)) => a.same(b),
            (WanViaTarget::Qualified(a), WanViaTarget::Qualified(b)) => a.node.same(&b.node)
                && a.local.same(&b.local),
            _ => false,
        }
    }
}

impl vstd::std_specs::cmp::PartialEqSpecImpl for WanViaTarget {
    open spec fn obeys_eq_spec() -> bool {
        true
    }

    open spec fn eq_spec(&self, other: &Self) -> bool {
        self@ == other@
    }
}

impl Eq for WanViaTarget {

}

impl WanViaTarget {
    /// Parses a target.
    pub fn parse(s: &str) -> (r: Result<WanViaTarget, ParseWanViaTargetError>)
        ensures
            wan_via_outcome(s@, r),
    {
        let v = chars_of(s);
        if find_char(&v, '.').is_some() {
            match NestedIdentifier::parse(s) {
                Ok(n) => Ok(WanViaTarget::Qualified(n)),
                Err(e) => Err(ParseWanViaTargetError::InvalidNested(e)),
            }
        } else {
            match Identifier::parse(s) {
                Ok(id) => Ok(WanViaTarget::Bare(id)),
                Err(e) => Err(ParseWanViaTargetError::InvalidIdentifier(e)),
            }
        }
    }

    /// The node this target names.
    pub fn node(&self) -> (r: &Identifier)
        ensures
            r@ == via_node(self@),
            *r == match *self {
                WanViaTarget::Bare(n) => n,
                WanViaTarget::Qualified(q) => q.node,
            },
    {
        match self {
            WanViaTarget::Bare(node) => node,
            WanViaTarget::Qualified(n) => &n.node,
        }
    }

    /// The target as written.
    pub fn to_string(&self) -> (r: String)
        ensures
            r@ == via_text(self@),
    {
        match self {
            WanViaTarget::Bare(id) => id.to_string(),
            WanViaTarget::Qualified(n) => n.to_string(),
        }
    }
}

impl std::str::FromStr for WanViaTarget {
    type Err = ParseWanViaTargetError;

    fn from_str(s: &str) -> (r: Result<WanViaTarget, ParseWanViaTargetError>)
        ensures
            wan_via_outcome(s@, r),
    {
        WanViaTarget::parse(s)
    }
}

/// Why a list of targets is refused.
#[derive(Debug, Clone)]
pub enum ParseWanViaTargetsError {
    DuplicateNode { node: Identifier },
}

/// Every node appears at most once among `ts`, whatever the form.
pub open spec fn nodes_distinct(ts: Seq<WanViaTarget>) -> bool {
    forall|i: int, j: int|
        0 <= i < j < ts.len() ==> via_node((#[trigger] ts[i])@) != via_node((#[trigger] ts[j])@)
}

/// The routers of one service's `wan.via`: each node at most once.
#[derive(Debug, Clone)]
pub struct WanViaTargets(OneOrManyUnique<WanViaTarget>);

impl View for WanViaTargets {
    type V = Seq<WanViaTarget>;

    closed spec fn view(&self) -> Seq<WanViaTarget> {
        self.0@
    }
}

impl WanViaTargets {
    /// Accepts a set of targets in which no node appears twice.
    pub fn try_from_targets(value: OneOrManyUnique<WanViaTarget>) -> (r: Result<
        WanViaTargets,
        ParseWanViaTargetsError,
    >)
        ensures
            r is Ok <==> nodes_distinct(value@),
            r matches Ok(t) ==> t@ == value@,
            r matches Err(ParseWanViaTargetsError::DuplicateNode { node }) ==> exists|i: int, j: int|
                0 <= i < j < value@.len() && via_node(value@[i]@) == node@ && via_node(value@[j]@)
                    == node@,
    {
        let items = value.items();
        let mut j: usize = 0;
        while j < items.len()
            invariant
                j <= items.len(),
                items@ == value@,
                forall|a: int, b: int|
                    0 <= a < b < j ==> via_node((#[trigger] items@[a])@) != via_node(
                        (#[trigger] items@[b])@,
                    ),
            decreases items.len() - j,
        {
            let mut i: usize = 0;
            while i < j
                invariant
                    i <= j < items.len(),
                    items@ == value@,
                    forall|a: int| 0 <= a < i ==> via_node(items@[a]@) != via_node(items@[j as int]@),
                decreases j - i,
            {
                if items[i].node().same(items[j].node()) {
                    let node = items[j].node().clone();
                    assert(via_node(value@[i as int]@) == node@ && via_node(value@[j as int]@)
                        == node@);
                    return Err(ParseWanViaTargetsError::DuplicateNode { node });
                }
                i = i + 1;
            }
            j = j + 1;
        }
        Ok(WanViaTargets(value))
    }

    /// The targets, in order, to iterate over.
    pub fn iter(&self) -> (r: &Vec<WanViaTarget>)
        ensures
            r@ == self@,
    {
        self.0.items()
    }

    /// Whether there is no target.
    pub fn is_empty(&self) -> (r: bool)
        ensures
            r == (self@.len() == 0),
    {
        self.0.is_empty()
    }
}

/// The message of a WAN target error.
pub open spec fn via_error_text(e: ParseWanViaTargetError) -> Seq<char> {
    match e {
        ParseWanViaTargetError::InvalidIdentifier(i) => "invalid wan target: "@ + identifier_error_text(i),
        ParseWanViaTargetError::InvalidNested(n) => "invalid qualified wan target: "@ + nested_error_text(n),
    }
}

impl ParseWanViaTargetError {
    /// The message, e.g. `invalid wan target: identifier is empty`.
    pub fn to_string(&self) -> (r: String)
        ensures
            r@ == via_error_text(*self),
    {
        match self {
            ParseWanViaTargetError::InvalidIdentifier(i) => {
                let mut s = to_string("invalid wan target: ");
                push_str(&mut s, i.to_string().as_str());
                s
            },
            ParseWanViaTargetError::InvalidNested(n) => {
                let mut s = to_string("invalid qualified wan target: ");
                push_str(&mut s, n.to_string().as_str());
                s
            },
        }
    }
}

/// The message of a `wan.via` error.
pub open spec fn vias_error_text(e: ParseWanViaTargetsError) -> Seq<char> {
    match e {
        ParseWanViaTargetsError::DuplicateNode { node } => "node '"@ + node@
            + "' appears more than once — each node should appear at most once in wan.via"@,
    }
}

impl ParseWanViaTargetsError {
    /// The message, naming the repeated node.
    pub fn to_string(&self) -> (r: String)
        ensures
            r@ == vias_error_text(*self),
    {
        match self {
            ParseWanViaTargetsError::DuplicateNode { node } => {
                let mut s = to_string("node '");
                push_str(&mut s, node.as_str());
                push_str(&mut s, "' appears more than once — each node should appear at most once in wan.via");
                s
            },
        }
    }
}

impl SameValue for WanViaTarget {
    type Meaning = WanViaTargetView;

    open spec fn meaning(&self) -> WanViaTargetView {
        self@
    }

    fn same_value(&self, other: &Self) -> (r: bool) {
        *self == *other
    }
}

} // verus!
