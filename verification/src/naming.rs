//! Names of generated sections.

use vstd::prelude::*;

use crate::consts::{
    mesh_interface_name, name_prefix, section_prefix, spec_mesh_interface_name, spec_name_prefix,
    spec_section_prefix,
};
use crate::text::concat2;

verus! {

/// The section name of an interface: the section prefix followed by `name`.
pub fn interface(name: &str) -> (r: String)
    ensures
        r@ == spec_section_prefix() + name@,
{
    concat2(section_prefix(), name)
}

/// The section name of the mesh interface.
pub fn mesh_interface() -> (r: String)
    ensures
        r@ == spec_section_prefix() + spec_mesh_interface_name(),
{
    interface(mesh_interface_name())
}

/// The human-readable name of a generated section: the name prefix followed by `name`.
pub fn name_prefixed(name: &str) -> (r: String)
    ensures
        r@ == spec_name_prefix() + name@,
{
    concat2(name_prefix(), name)
}

} // verus!
