//! References in `allowFrom`: a global name, a qualified per-node name, or `$node`.

use vstd::prelude::*;

use crate::consts::{current_node_identifier, spec_current_node_identifier};
use crate::text::{chars_of, find_char, str_eq, to_string};
use crate::types::identifier::{
    identifier_error_text, identifier_outcome, nested_error_text, nested_outcome, Identifier, NestedIdentifier,
    ParseIdentifierError, ParseNestedIdentifierError,
};
use crate::types::schema_helpers::SameValue;

verus! {

broadcast use vstd::seq_lib::group_seq_properties;

/// Why a string is not an `allowFrom` reference.
#[derive(Debug, Clone, Copy)]
pub enum ParseAllowFromRefError {
    InvalidIdentifier(ParseIdentifierError),
    InvalidNested(ParseNestedIdentifierError),
}

/// A reference in a service's `allowFrom`.
#[derive(Debug, Hash)]
pub enum AllowFromRef {
    Bare(Identifier),
    Nested(NestedIdentifier),
    SelfNode,
}

/// What an `AllowFromRef` stands for.
pub enum AllowFromRefView {
    Bare(Seq<char>),
    Nested(Seq<char>, Seq<char>),
    SelfNode,
}

impl View for AllowFromRef {
    type V = AllowFromRefView;

    open spec fn view(&self) -> AllowFromRefView {
        match self {
            AllowFromRef::Bare(id) => AllowFromRefView::Bare(id@),
            AllowFromRef::Nested(n) => AllowFromRefView::Nested(n.node@, n.local@),
            AllowFromRef::SelfNode => AllowFromRefView::SelfNode,
        }
    }
}

/// The text of a reference: the name, `Node.Local`, or `$node`.
pub open spec fn allow_from_text(r: AllowFromRefView) -> Seq<char> {
    match r {
        AllowFromRefView::Bare(n) => n,
        AllowFromRefView::Nested(n, l) => n + seq!['.'] + l,
        AllowFromRefView::SelfNode => spec_current_node_identifier(),
    }
}

/// `r` is what parsing `s` gives: `$node` first, then a qualified name if `s` holds a `.`,
/// else a bare identifier.
pub open spec fn allow_from_outcome(s: Seq<char>, r: Result<AllowFromRef, ParseAllowFromRefError>) -> bool {
    if s == spec_current_node_identifier() {
        r matches Ok(AllowFromRef::SelfNode)
    } else if s.contains('.') {
        match r {
            Ok(AllowFromRef::Nested(n)) => nested_outcome(s, Ok(n)),
            Err(ParseAllowFromRefError::InvalidNested(e)) => nested_outcome(s, Err(e)),
            _ => false,
        }
    } else {
        match r {
            Ok(AllowFromRef::Bare(id)) => identifier_outcome(s, Ok(id)),
            Err(ParseAllowFromRefError::InvalidIdentifier(e)) => identifier_outcome(s, Err(e)),
            _ => false,
        }
    }
}

impl Clone for AllowFromRef {
    fn clone(&self) -> (r: Self)
        ensures
            r == *self,
    {
        match self {
            AllowFromRef::Bare(id) => AllowFromRef::Bare(id.clone()),
            AllowFromRef::Nested(n) => AllowFromRef::Nested(n.clone()),
            AllowFromRef::SelfNode => AllowFromRef::SelfNode,
        }
    }
}

impl PartialEq for AllowFromRef {
    fn eq(&self, other: &Self) -> (r: bool) {
        self.same(other)
    }
}

impl vstd::std_specs::cmp::PartialEqSpecImpl for AllowFromRef {
    open spec fn obeys_eq_spec() -> bool {
        true
    }

    open spec fn eq_spec(&self, other: &Self) -> bool {
        self@ == other@
    }
}

impl Eq for AllowFromRef {

}

impl AllowFromRef {
    /// Parses a reference.
    pub fn parse(s: &str) -> (r: Result<AllowFromRef, ParseAllowFromRefError>)
        ensures
            allow_from_outcome(s@, r),
    {
        if str_eq(s, current_node_identifier()) {
            return Ok(AllowFromRef::SelfNode);
        }
        let v = chars_of(s);
        if find_char(&v, '.').is_some() {
            match NestedIdentifier::parse(s) {
                Ok(n) => Ok(AllowFromRef::Nested(n)),
                Err(e) => Err(ParseAllowFromRefError::InvalidNested(e)),
            }
        } else {
            match Identifier::parse(s) {
                Ok(id) => Ok(AllowFromRef::Bare(id)),
                Err(e) => Err(ParseAllowFromRefError::InvalidIdentifier(e)),
            }
        }
    }

    /// The qualified reference `node.local`.
    pub fn nested(node: Identifier, local: Identifier) -> (r: Self)
        ensures
            r@ == AllowFromRefView::Nested(node@, local@),
    {
        AllowFromRef::Nested(NestedIdentifier { node, local })
    }

    /// Compares two references.
    pub fn same(&self, other: &AllowFromRef) -> (r: bool)
        ensures
            r == (self@ == other@),
    {
        match (self, other) {
            (AllowFromRef::Bare(a), AllowFromRef::Bare(b)) => a.same(b),
            (AllowFromRef::Nested(a), AllowFromRef::Nested(b)) => a.node.same(&b.node)
                && a.local.same(&b.local),
            (AllowFromRef::SelfNode, AllowFromRef::SelfNode) => true,
            _ => false,
        }
    }

    /// The reference as written.
    pub fn to_string(&self) -> (r: String)
        ensures
            r@ == allow_from_text(self@),
    {
        match self {
            AllowFromRef::Bare(id) => id.to_string(),
            AllowFromRef::Nested(n) => n.to_string(),
            AllowFromRef::SelfNode => to_string(current_node_identifier()),
        }
    }
}

/// Writing a parsed reference back gives the text it was parsed from.
pub proof fn lemma_allow_from_ref_roundtrip(s: Seq<char>, r: AllowFromRef)
    requires
        allow_from_outcome(s, Ok(r)),
    ensures
        allow_from_text(r@) == s,
{
    if s != spec_current_node_identifier() && s.contains('.') {
        crate::text::lemma_first_index_exists(s, '.');
        let i = choose|i: int| crate::text::is_first_index(s, '.', i);
        crate::text::lemma_split_once_at(s, '.', i);
        assert(s =~= s.take(i) + seq!['.'] + s.skip(i + 1));
    }
}

impl std::str::FromStr for AllowFromRef {
    type Err = ParseAllowFromRefError;

    fn from_str(s: &str) -> (r: Result<AllowFromRef, ParseAllowFromRefError>)
        ensures
            allow_from_outcome(s@, r),
    {
        AllowFromRef::parse(s)
    }
}

/// The message of an `allowFrom` reference error.
pub open spec fn allow_from_error_text(e: ParseAllowFromRefError) -> Seq<char> {
    match e {
        ParseAllowFromRefError::InvalidIdentifier(i) => "invalid allowFrom reference: "@ + identifier_error_text(i),
        ParseAllowFromRefError::InvalidNested(n) => "invalid qualified allowFrom reference: "@ + nested_error_text(n),
    }
}

impl ParseAllowFromRefError {
    /// The message, e.g. `invalid allowFrom reference: identifier is empty`.
    pub fn to_string(&self) -> (r: String)
        ensures
            r@ == allow_from_error_text(*self),
    {
        match self {
            ParseAllowFromRefError::InvalidIdentifier(i) => {
                let mut s = to_string("invalid allowFrom reference: ");
                crate::text::push_str(&mut s, i.to_string().as_str());
                s
            },
            ParseAllowFromRefError::InvalidNested(n) => {
                let mut s = to_string("invalid qualified allowFrom reference: ");
                crate::text::push_str(&mut s, n.to_string().as_str());
                s
            },
        }
    }
}

impl SameValue for AllowFromRef {
    type Meaning = AllowFromRefView;

    open spec fn meaning(&self) -> AllowFromRefView {
        self@
    }

    fn same_value(&self, other: &Self) -> (r: bool) {
        self.same(other)
    }
}

} // verus!
