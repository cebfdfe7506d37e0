//! Transport protocols a service listens on.

use vstd::prelude::*;

use crate::entries::dedup;
use crate::text::{push_str, to_string};
use crate::types::schema_helpers::{OneOrManyUnique, SameValue};

verus! {

broadcast use vstd::seq_lib::group_seq_properties;

/// A transport protocol.
#[derive(Debug, Clone, Copy, PartialEq, Eq, Structural, Hash)]
pub enum Protocol {
    Tcp,
    Udp,
    Icmp,
}

/// The lowercase name of a protocol.
pub open spec fn protocol_text(p: Protocol) -> Seq<char> {
    match p {
        Protocol::Tcp => seq!['t', 'c', 'p'],
        Protocol::Udp => seq!['u', 'd', 'p'],
        Protocol::Icmp => seq!['i', 'c', 'm', 'p'],
    }
}

impl Protocol {
    /// The lowercase name: `tcp`, `udp` or `icmp`.
    pub fn as_str(&self) -> (r: &'static str)
        ensures
            r@ == protocol_text(*self),
    {
        match self {
            Protocol::Tcp => {
                proof {
                    reveal_strlit("tcp");
                }
                "tcp"
            },
            Protocol::Udp => {
                proof {
                    reveal_strlit("udp");
                }
                "udp"
            },
            Protocol::Icmp => {
                proof {
                    reveal_strlit("icmp");
                }
                "icmp"
            },
        }
    }

    /// The lowercase name, as a new string.
    pub fn to_string(&self) -> (r: String)
        ensures
            r@ == protocol_text(*self),
    {
        to_string(self.as_str())
    }
}

/// A set of protocols, kept in the order in which each first appeared.
#[derive(Debug, Clone)]
pub struct Protocols(Vec<Protocol>);

impl View for Protocols {
    type V = Seq<Protocol>;

    closed spec fn view(&self) -> Seq<Protocol> {
        self.0@
    }
}

/// The text of a protocol set: `<empty>`, or the names joined with `, `.
pub open spec fn protocols_text(s: Seq<Protocol>) -> Seq<char>
    decreases s.len(),
{
    if s.len() == 0 {
        seq!['<', 'e', 'm', 'p', 't', 'y', '>']
    } else if s.len() == 1 {
        protocol_text(s[0])
    } else {
        protocols_text(s.drop_last()) + seq![',', ' '] + protocol_text(s.last())
    }
}

impl Protocols {
    /// The set of the given protocols.
    pub fn from_items(items: &Vec<Protocol>) -> (r: Protocols)
        ensures
            r@ == dedup(items@),
    {
        let mut out: Vec<Protocol> = Vec::new();
        let mut i: usize = 0;
        while i < items.len()
            invariant
                i <= items.len(),
                out@ == dedup(items@.take(i as int)),
            decreases items.len() - i,
        {
            let p = items[i];
            let mut found = false;
            let mut j: usize = 0;
            while j < out.len()
                invariant
                    j <= out.len(),
                    found == out@.take(j as int).contains(p),
                decreases out.len() - j,
            {
                if out[j] == p {
                    found = true;
                }
                proof {
                    assert(out@.take(j + 1) =~= out@.take(j as int).push(out@[j as int]));
                }
                j = j + 1;
            }
            assert(out@.take(out.len() as int) =~= out@);
            assert(items@.take(i + 1).drop_last() =~= items@.take(i as int));
            if !found {
                out.push(p);
            }
            i = i + 1;
        }
        assert(items@.take(items.len() as int) =~= items@);
        Protocols(out)
    }

    /// The set of the protocols of a config entry.
    pub fn from_one_or_many(value: &OneOrManyUnique<Protocol>) -> (r: Protocols)
        ensures
            r@ == dedup(value@),
    {
        Protocols::from_items(value.items())
    }

    /// The protocols, in order.
    pub fn items(&self) -> (r: &Vec<Protocol>)
        ensures
            r@ == self@,
    {
        &self.0
    }

    /// The number of protocols.
    pub fn len(&self) -> (r: usize)
        ensures
            r == self@.len(),
    {
        self.0.len()
    }

    /// Whether `p` is in the set.
    pub fn contains(&self, p: Protocol) -> (r: bool)
        ensures
            r == self@.contains(p),
    {
        let mut i: usize = 0;
        while i < self.0.len()
            invariant
                i <= self.0@.len(),
                forall|j: int| 0 <= j < i ==> self.0@[j] != p,
            decreases self.0@.len() - i,
        {
            if self.0[i] == p {
                return true;
            }
            i = i + 1;
        }
        false
    }

    /// `<empty>`, or the protocol names joined with `, `.
    pub fn to_string(&self) -> (r: String)
        ensures
            r@ == protocols_text(self@),
    {
        if self.0.len() == 0 {
            proof {
                reveal_strlit("<empty>");
            }
            return to_string("<empty>");
        }
        let mut s = self.0[0].to_string();
        let mut i: usize = 1;
        proof {
            assert(protocols_text(self.0@.take(1)) == protocol_text(self.0@.take(1)[0]));
        }
        while i < self.0.len()
            invariant
                1 <= i <= self.0@.len(),
                s@ == protocols_text(self.0@.take(i as int)),
            decreases self.0@.len() - i,
        {
            proof {
                reveal_strlit(", ");
            }
            push_str(&mut s, ", ");
            push_str(&mut s, self.0[i].as_str());
            proof {
                assert(self.0@.take(i + 1).drop_last() =~= self.0@.take(i as int));
            }
            i = i + 1;
        }
        assert(self.0@.take(self.0@.len() as int) =~= self.0@);
        s
    }
}

impl SameValue for Protocol {
    type Meaning = Protocol;

    open spec fn meaning(&self) -> Protocol {
        *self
    }

    fn same_value(&self, other: &Self) -> (r: bool) {
        *self == *other
    }
}

} // verus!
