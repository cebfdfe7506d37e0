//! Shared firewall values: rule targets and the resolution of `allowFrom` references.

use vstd::prelude::*;

use crate::types::allow_from_ref::{AllowFromRef, AllowFromRefView};
use crate::types::ip::Ipv4Network;
use crate::types::zone_ref::{ZoneRef, ZoneRefView};

verus! {

/// What a firewall section does with matching traffic.
#[derive(Debug, Clone, Copy, PartialEq, Eq, Structural)]
pub enum FirewallAction {
    Accept,
    Reject,
    Drop,
}

/// The UCI name of an action.
pub open spec fn action_text(a: FirewallAction) -> Seq<char> {
    match a {
        FirewallAction::Accept => seq!['A', 'C', 'C', 'E', 'P', 'T'],
        FirewallAction::Reject => seq!['R', 'E', 'J', 'E', 'C', 'T'],
        FirewallAction::Drop => seq!['D', 'R', 'O', 'P'],
    }
}

impl FirewallAction {
    /// `ACCEPT`, `REJECT` or `DROP`.
    pub fn as_str(&self) -> (r: &'static str)
        ensures
            r@ == action_text(*self),
    {
        match self {
            FirewallAction::Accept => {
                proof {
                    reveal_strlit("ACCEPT");
                }
                "ACCEPT"
            },
            FirewallAction::Reject => {
                proof {
                    reveal_strlit("REJECT");
                }
                "REJECT"
            },
            FirewallAction::Drop => {
                proof {
                    reveal_strlit("DROP");
                }
                "DROP"
            },
        }
    }

    /// `ACCEPT`, `REJECT` or `DROP`, as a new string.
    pub fn to_string(&self) -> (r: String)
        ensures
            r@ == action_text(*self),
    {
        crate::text::to_string(self.as_str())
    }
}

/// One resolution of an `allowFrom` reference: a network that the reference stands for,
/// as seen from the zone it lies in.
#[derive(Debug)]
pub struct TagBinding {
    pub tag: AllowFromRef,
    pub zone: ZoneRef,
    pub network: Ipv4Network,
}

/// What a binding says.
pub type BindingView = (AllowFromRefView, ZoneRefView, (u32, u8));

impl View for TagBinding {
    type V = BindingView;

    open spec fn view(&self) -> BindingView {
        (self.tag@, self.zone@, self.network@)
    }
}

/// The views of a sequence of bindings.
pub open spec fn bindings_view(s: Seq<TagBinding>) -> Seq<BindingView> {
    s.map_values(|b: TagBinding| b@)
}

impl Clone for TagBinding {
    fn clone(&self) -> (r: Self)
        ensures
            r == *self,
    {
        TagBinding { tag: self.tag.clone(), zone: self.zone.clone(), network: self.network }
    }
}

impl TagBinding {
    /// Compares two bindings.
    pub fn same(&self, other: &TagBinding) -> (r: bool)
        ensures
            r == (self@ == other@),
    {
        self.tag.same(&other.tag) && self.zone.same(&other.zone) && self.network.same(
            &other.network,
        )
    }
}

} // verus!
