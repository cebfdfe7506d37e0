//! A firewall zone: the mesh zone, or a zone named in the config.

use vstd::prelude::*;

use crate::consts::{mesh_interface_name, spec_mesh_interface_name};
use crate::text::to_string;
use crate::types::identifier::Identifier;

verus! {

/// A firewall zone that a rule or redirect is scoped to.
#[derive(Debug, Hash)]
pub enum ZoneRef {
    Mesh,
    Named(Identifier),
}

/// What a `ZoneRef` stands for.
pub enum ZoneRefView {
    Mesh,
    Named(Seq<char>),
}

impl View for ZoneRef {
    type V = ZoneRefView;

    open spec fn view(&self) -> ZoneRefView {
        match self {
            ZoneRef::Mesh => ZoneRefView::Mesh,
            ZoneRef::Named(id) => ZoneRefView::Named(id@),
        }
    }
}

/// The zone's name: `mesh` for the mesh zone.
pub open spec fn zone_name(z: ZoneRefView) -> Seq<char> {
    match z {
        ZoneRefView::Mesh => spec_mesh_interface_name(),
        ZoneRefView::Named(n) => n,
    }
}

impl Clone for ZoneRef {
    fn clone(&self) -> (r: Self)
        ensures
            r == *self,
    {
        match self {
            ZoneRef::Mesh => ZoneRef::Mesh,
            ZoneRef::Named(id) => ZoneRef::Named(id.clone()),
        }
    }
}

impl PartialEq for ZoneRef {
    fn eq(&self, other: &Self) -> (r: bool) {
        self.same(other)
    }
}

impl vstd::std_specs::cmp::PartialEqSpecImpl for ZoneRef {
    open spec fn obeys_eq_spec() -> bool {
        true
    }

    open spec fn eq_spec(&self, other: &Self) -> bool {
        self@ == other@
    }
}

impl Eq for ZoneRef {

}

impl ZoneRef {
    /// Compares two zones.
    pub fn same(&self, other: &ZoneRef) -> (r: bool)
        ensures
            r == (self@ == other@),
    {
        match (self, other) {
            (ZoneRef::Mesh, ZoneRef::Mesh) => true,
            (ZoneRef::Named(a), ZoneRef::Named(b)) => a.same(b),
            _ => false,
        }
    }

    /// The zone's name.
    pub fn as_str(&self) -> (r: &str)
        ensures
            r@ == zone_name(self@),
    {
        match self {
            ZoneRef::Mesh => mesh_interface_name(),
            ZoneRef::Named(id) => id.as_str(),
        }
    }

    /// The zone's name, as a new string.
    pub fn to_string(&self) -> (r: String)
        ensures
            r@ == zone_name(self@),
    {
        to_string(self.as_str())
    }
}

impl AsRef<str> for ZoneRef {
    fn as_ref(&self) -> (r: &str)
        ensures
            r@ == zone_name(self@),
    {
        self.as_str()
    }
}

} // verus!
