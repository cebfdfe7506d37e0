//! Fixed names used in generated sections and references.

use vstd::prelude::*;

verus! {

/// Prefix of every section splot writes, so that its own sections can be told apart.
pub open spec fn spec_section_prefix() -> Seq<char> {
    seq!['s', 'p', 'l', '_']
}

/// Prefix of the human-readable `name` option of generated sections.
pub open spec fn spec_name_prefix() -> Seq<char> {
    seq!['[', 'S', 'P', 'L', 'O', 'T', ']', ' ']
}

/// Name of the mesh interface and of its firewall zone.
pub open spec fn spec_mesh_interface_name() -> Seq<char> {
    seq!['m', 'e', 's', 'h']
}

/// The reference that stands for the node being configured.
pub open spec fn spec_current_node_identifier() -> Seq<char> {
    seq!['$', 'n', 'o', 'd', 'e']
}

/// Name of the firewall configuration file.
pub open spec fn spec_firewall_file_name() -> Seq<char> {
    seq!['f', 'i', 'r', 'e', 'w', 'a', 'l', 'l']
}

/// `spl_`
pub fn section_prefix() -> (s: &'static str)
    ensures
        s@ == spec_section_prefix(),
{
    proof {
        reveal_strlit("spl_");
    }
    "spl_"
}

/// `[SPLOT] `
pub fn name_prefix() -> (s: &'static str)
    ensures
        s@ == spec_name_prefix(),
{
    proof {
        reveal_strlit("[SPLOT] ");
    }
    "[SPLOT] "
}

/// `mesh`
pub fn mesh_interface_name() -> (s: &'static str)
    ensures
        s@ == spec_mesh_interface_name(),
{
    proof {
        reveal_strlit("mesh");
    }
    "mesh"
}

/// `$node`
pub fn current_node_identifier() -> (s: &'static str)
    ensures
        s@ == spec_current_node_identifier(),
{
    proof {
        reveal_strlit("$node");
    }
    "$node"
}

/// `firewall`
pub fn firewall_file_name() -> (s: &'static str)
    ensures
        s@ == spec_firewall_file_name(),
{
    proof {
        reveal_strlit("firewall");
    }
    "firewall"
}

} // verus!
