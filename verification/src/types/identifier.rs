//! Names of nodes, clients, zones, tags: identifiers, and their `Node.Local` qualified form.

use vstd::prelude::*;

use crate::consts::{section_prefix, spec_section_prefix};
use crate::text::{
    char_debug, char_debug_text, chars_of, chars_start_with, concat3, dec, push_str, split_once, split_once_chars,
    starts_with, to_string, usize_to_dec,
};
use crate::types::schema_helpers::SameValue;

verus! {

broadcast use vstd::seq_lib::group_seq_properties;

/// Why a string is not an identifier.
#[derive(Debug, Clone, Copy)]
pub enum ParseIdentifierError {
    Empty,
    InvalidCharacter { found: char, position: usize },
    ReservedPrefix { prefix: &'static str },
}

/// An ASCII letter or digit.
pub open spec fn is_ascii_alnum(c: char) -> bool {
    ('0' <= c && c <= '9') || ('a' <= c && c <= 'z') || ('A' <= c && c <= 'Z')
}

/// The character at `i` may stand at that place of an identifier: the first must be an ASCII
/// letter or digit, the others may also be `-` or `_`.
pub open spec fn allowed_at(s: Seq<char>, i: int) -> bool {
    if i == 0 {
        is_ascii_alnum(s[i])
    } else {
        is_ascii_alnum(s[i]) || s[i] == '-' || s[i] == '_'
    }
}

/// Every character of `s` is allowed where it stands.
pub open spec fn all_allowed(s: Seq<char>) -> bool {
    forall|i: int| 0 <= i < s.len() ==> allowed_at(s, i)
}

/// `i` is the first position of `s` whose character is not allowed.
pub open spec fn first_disallowed(s: Seq<char>, i: int) -> bool {
    &&& 0 <= i < s.len()
    &&& !allowed_at(s, i)
    &&& forall|j: int| 0 <= j < i ==> allowed_at(s, j)
}

/// `s` is a valid identifier: non-empty, only allowed characters, not starting with `spl_`.
pub open spec fn is_valid_identifier(s: Seq<char>) -> bool {
    &&& s.len() > 0
    &&& all_allowed(s)
    &&& !starts_with(s, spec_section_prefix())
}

/// `e` is the error that validating `s` reports: emptiness first, then the first disallowed
/// character, then the reserved prefix.
pub open spec fn identifier_error(s: Seq<char>, e: ParseIdentifierError) -> bool {
    match e {
        ParseIdentifierError::Empty => s.len() == 0,
        ParseIdentifierError::InvalidCharacter { found, position } => {
            first_disallowed(s, position as int) && found == s[position as int]
        },
        ParseIdentifierError::ReservedPrefix { prefix } => {
            &&& s.len() > 0
            &&& all_allowed(s)
            &&& starts_with(s, spec_section_prefix())
            &&& prefix@ == spec_section_prefix()
        },
    }
}

/// An error is reported exactly for invalid identifiers.
pub proof fn lemma_identifier_error_iff_invalid(s: Seq<char>, e: ParseIdentifierError)
    requires
        identifier_error(s, e),
    ensures
        !is_valid_identifier(s),
{
}

fn is_alnum(c: char) -> (r: bool)
    ensures
        r == is_ascii_alnum(c),
{
    ('0' <= c && c <= '9') || ('a' <= c && c <= 'z') || ('A' <= c && c <= 'Z')
}

/// Checks that `v` spells an identifier.
fn validate_identifier(v: &Vec<char>) -> (r: Result<(), ParseIdentifierError>)
    ensures
        match r {
            Ok(()) => is_valid_identifier(v@),
            Err(e) => identifier_error(v@, e),
        },
{
    if v.len() == 0 {
        return Err(ParseIdentifierError::Empty);
    }
    if !is_alnum(v[0]) {
        return Err(ParseIdentifierError::InvalidCharacter { found: v[0], position: 0 });
    }
    let mut i: usize = 1;
    while i < v.len()
        invariant
            1 <= i <= v.len(),
            forall|j: int| 0 <= j < i ==> allowed_at(v@, j),
        decreases v.len() - i,
    {
        let c = v[i];
        if !(is_alnum(c) || c == '-' || c == '_') {
            return Err(ParseIdentifierError::InvalidCharacter { found: c, position: i });
        }
        i = i + 1;
    }
    let prefix = section_prefix();
    let pv = chars_of(prefix);
    if chars_start_with(v, &pv) {
        return Err(ParseIdentifierError::ReservedPrefix { prefix });
    }
    Ok(())
}

/// A validated name: a node, client, zone, device, VPN interface, tag or service.
#[derive(Debug, Hash)]
pub struct Identifier(String);

impl View for Identifier {
    type V = Seq<char>;

    closed spec fn view(&self) -> Seq<char> {
        self.0@
    }
}

impl Clone for Identifier {
    fn clone(&self) -> (r: Self)
        ensures
            r == *self,
    {
        Identifier(self.0.clone())
    }
}

impl PartialEq for Identifier {
    fn eq(&self, other: &Self) -> (r: bool) {
        self.0 == other.0
    }
}

impl vstd::std_specs::cmp::PartialEqSpecImpl for Identifier {
    open spec fn obeys_eq_spec() -> bool {
        true
    }

    open spec fn eq_spec(&self, other: &Self) -> bool {
        self@ == other@
    }
}

impl Eq for Identifier {

}

impl Identifier {
    /// Parses an identifier.
    pub fn parse(s: &str) -> (r: Result<Identifier, ParseIdentifierError>)
        ensures
            match r {
                Ok(id) => is_valid_identifier(s@) && id@ == s@,
                Err(e) => identifier_error(s@, e),
            },
    {
        let v = chars_of(s);
        match validate_identifier(&v) {
            Ok(()) => Ok(Identifier(s.to_owned())),
            Err(e) => Err(e),
        }
    }

    /// Parses an identifier held in a `String`.
    pub fn from_string(s: String) -> (r: Result<Identifier, ParseIdentifierError>)
        ensures
            match r {
                Ok(id) => is_valid_identifier(s@) && id@ == s@,
                Err(e) => identifier_error(s@, e),
            },
    {
        let v = chars_of(s.as_str());
        match validate_identifier(&v) {
            Ok(()) => Ok(Identifier(s)),
            Err(e) => Err(e),
        }
    }

    /// The name.
    pub fn as_str(&self) -> (r: &str)
        ensures
            r@ == self@,
    {
        self.0.as_str()
    }

    /// The name, as a new string.
    pub fn to_string(&self) -> (r: String)
        ensures
            r@ == self@,
    {
        self.0.clone()
    }

    /// The name, consuming the identifier.
    pub fn into_string(self) -> (r: String)
        ensures
            r@ == self@,
    {
        self.0
    }

    /// Compares two identifiers by name.
    pub fn same(&self, other: &Identifier) -> (r: bool)
        ensures
            r == (self@ == other@),
    {
        self.0 == other.0
    }
}

impl std::str::FromStr for Identifier {
    type Err = ParseIdentifierError;

    fn from_str(s: &str) -> (r: Result<Identifier, ParseIdentifierError>)
        ensures
            match r {
                Ok(id) => is_valid_identifier(s@) && id@ == s@,
                Err(e) => identifier_error(s@, e),
            },
    {
        Identifier::parse(s)
    }
}

impl AsRef<str> for Identifier {
    fn as_ref(&self) -> (r: &str)
        ensures
            r@ == self@,
    {
        self.0.as_str()
    }
}

/// Why a string is not a qualified `Node.Local` name.
#[derive(Debug, Clone, Copy)]
pub enum ParseNestedIdentifierError {
    MissingDot,
    TooManyDots,
    InvalidNode(ParseIdentifierError),
    InvalidLocal(ParseIdentifierError),
}

/// A qualified name `Node.Local`: a name in a node's own namespace.
#[derive(Debug, Hash)]
pub struct NestedIdentifier {
    pub node: Identifier,
    pub local: Identifier,
}

impl View for NestedIdentifier {
    type V = (Seq<char>, Seq<char>);

    open spec fn view(&self) -> (Seq<char>, Seq<char>) {
        (self.node@, self.local@)
    }
}

impl Clone for NestedIdentifier {
    fn clone(&self) -> (r: Self)
        ensures
            r == *self,
    {
        NestedIdentifier { node: self.node.clone(), local: self.local.clone() }
    }
}

impl PartialEq for NestedIdentifier {
    fn eq(&self, other: &Self) -> (r: bool) {
        self.node.same(&other.node) && self.local.same(&other.local)
    }
}

impl vstd::std_specs::cmp::PartialEqSpecImpl for NestedIdentifier {
    open spec fn obeys_eq_spec() -> bool {
        true
    }

    open spec fn eq_spec(&self, other: &Self) -> bool {
        self@ == other@
    }
}

impl Eq for NestedIdentifier {

}

/// `r` is what parsing `s` as an identifier gives.
pub open spec fn identifier_outcome(s: Seq<char>, r: Result<Identifier, ParseIdentifierError>) -> bool {
    match r {
        Ok(id) => is_valid_identifier(s) && id@ == s,
        Err(e) => identifier_error(s, e),
    }
}

/// `r` is what parsing `s` as a qualified name gives: split at the first `.`; the local part
/// must hold no further `.`; then the node part, then the local part, must be identifiers.
pub open spec fn nested_outcome(
    s: Seq<char>,
    r: Result<NestedIdentifier, ParseNestedIdentifierError>,
) -> bool {
    match split_once(s, '.') {
        None => r == Err::<NestedIdentifier, ParseNestedIdentifierError>(
            ParseNestedIdentifierError::MissingDot,
        ),
        Some((node, local)) => if local.contains('.') {
            r == Err::<NestedIdentifier, ParseNestedIdentifierError>(
                ParseNestedIdentifierError::TooManyDots,
            )
        } else {
            match r {
                Ok(n) => is_valid_identifier(node) && is_valid_identifier(local) && n@ == (
                    node,
                    local,
                ),
                Err(ParseNestedIdentifierError::InvalidNode(e)) => identifier_error(node, e),
                Err(ParseNestedIdentifierError::InvalidLocal(e)) => is_valid_identifier(node)
                    && identifier_error(local, e),
                _ => false,
            }
        },
    }
}

impl NestedIdentifier {
    /// Parses `Node.Local`.
    pub fn parse(s: &str) -> (r: Result<NestedIdentifier, ParseNestedIdentifierError>)
        ensures
            nested_outcome(s@, r),
    {
        let v = chars_of(s);
        let (node, local) = match split_once_chars(&v, '.') {
            Some(parts) => parts,
            None => return Err(ParseNestedIdentifierError::MissingDot),
        };
        let lv = chars_of(local.as_str());
        if crate::text::find_char(&lv, '.').is_some() {
            return Err(ParseNestedIdentifierError::TooManyDots);
        }
        let node = match Identifier::from_string(node) {
            Ok(id) => id,
            Err(e) => return Err(ParseNestedIdentifierError::InvalidNode(e)),
        };
        let local = match Identifier::from_string(local) {
            Ok(id) => id,
            Err(e) => return Err(ParseNestedIdentifierError::InvalidLocal(e)),
        };
        Ok(NestedIdentifier { node, local })
    }

    /// `Node.Local`.
    pub fn to_string(&self) -> (r: String)
        ensures
            r@ == self.node@ + seq!['.'] + self.local@,
    {
        proof {
            reveal_strlit(".");
        }
        concat3(self.node.as_str(), ".", self.local.as_str())
    }
}

impl std::str::FromStr for NestedIdentifier {
    type Err = ParseNestedIdentifierError;

    fn from_str(s: &str) -> (r: Result<NestedIdentifier, ParseNestedIdentifierError>)
        ensures
            nested_outcome(s@, r),
    {
        NestedIdentifier::parse(s)
    }
}

/// The message of an identifier error.
pub open spec fn identifier_error_text(e: ParseIdentifierError) -> Seq<char> {
    match e {
        ParseIdentifierError::Empty => "identifier is empty"@,
        ParseIdentifierError::InvalidCharacter { found, position } => "invalid character "@ + char_debug_text(found)
            + " at position "@ + dec(position as nat),
        ParseIdentifierError::ReservedPrefix { prefix } => "identifier starts with reserved prefix \""@ + prefix@
            + "\""@,
    }
}

impl ParseIdentifierError {
    /// The message, e.g. `invalid character ' ' at position 2`.
    pub fn to_string(&self) -> (r: String)
        ensures
            r@ == identifier_error_text(*self),
    {
        match self {
            ParseIdentifierError::Empty => to_string("identifier is empty"),
            ParseIdentifierError::InvalidCharacter { found, position } => {
                let mut s = to_string("invalid character ");
                push_str(&mut s, char_debug(*found).as_str());
                push_str(&mut s, " at position ");
                push_str(&mut s, usize_to_dec(*position).as_str());
                s
            },
            ParseIdentifierError::ReservedPrefix { prefix } => {
                let mut s = to_string("identifier starts with reserved prefix \"");
                push_str(&mut s, prefix);
                push_str(&mut s, "\"");
                s
            },
        }
    }
}

/// The message of a qualified-name error.
pub open spec fn nested_error_text(e: ParseNestedIdentifierError) -> Seq<char> {
    match e {
        ParseNestedIdentifierError::MissingDot => "missing '.' separator — qualified names have the form 'Node.Local'"@,
        ParseNestedIdentifierError::TooManyDots => "too many '.' separators — qualified names have exactly two segments"@,
        ParseNestedIdentifierError::InvalidNode(i) => "invalid node segment: "@ + identifier_error_text(i),
        ParseNestedIdentifierError::InvalidLocal(i) => "invalid local segment: "@ + identifier_error_text(i),
    }
}

impl ParseNestedIdentifierError {
    /// The message, e.g. `invalid node segment: identifier is empty`.
    pub fn to_string(&self) -> (r: String)
        ensures
            r@ == nested_error_text(*self),
    {
        match self {
            ParseNestedIdentifierError::MissingDot => to_string(
                "missing '.' separator — qualified names have the form 'Node.Local'",
            ),
            ParseNestedIdentifierError::TooManyDots => to_string(
                "too many '.' separators — qualified names have exactly two segments",
            ),
            ParseNestedIdentifierError::InvalidNode(i) => {
                let mut s = to_string("invalid node segment: ");
                push_str(&mut s, i.to_string().as_str());
                s
            },
            ParseNestedIdentifierError::InvalidLocal(i) => {
                let mut s = to_string("invalid local segment: ");
                push_str(&mut s, i.to_string().as_str());
                s
            },
        }
    }
}

impl SameValue for Identifier {
    type Meaning = Seq<char>;

    open spec fn meaning(&self) -> Seq<char> {
        self@
    }

    fn same_value(&self, other: &Self) -> (r: bool) {
        self.same(other)
    }
}

} // verus!
