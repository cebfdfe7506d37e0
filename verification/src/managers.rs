//! Generation of UCI commands, one manager per configuration file.

pub mod dhcp;
pub mod firewall;
pub mod network;

use vstd::prelude::*;

use crate::consts::{section_prefix, spec_section_prefix};
use crate::text::{push_str, sorted_of, sorted_strings_of, starts_with, strings_view, to_string};
use crate::protocol::{Protocol, Protocols, protocol_text};
use crate::types::ip::{Ipv4Interface, Ipv4Network, cidr_text};
use crate::types::mac::{MacAddress, mac_text};
use crate::uci::{UciBatchCommand, UciCmd, cmds_view};

verus! {

broadcast use vstd::seq_lib::group_seq_properties;

/// The path of a generated section: `file.` followed by the section prefix and `name`.
pub open spec fn section_path(file: Seq<char>, name: Seq<char>) -> Seq<char> {
    file + seq!['.'] + spec_section_prefix() + name
}

/// The path of an option of a section.
pub open spec fn option_path(path: Seq<char>, prop: Seq<char>) -> Seq<char> {
    path + seq!['.'] + prop
}

/// One `add_list` command per value, in the given order.
pub open spec fn add_list_cmds(path: Seq<char>, values: Seq<Seq<char>>) -> Seq<UciCmd> {
    values.map_values(|v: Seq<char>| UciCmd::AddList(path, v))
}

/// Builds the commands that write one section.
pub struct UciSectionBuilder {
    path: String,
    commands: Vec<UciBatchCommand>,
}

impl UciSectionBuilder {
    /// The path of the section.
    pub closed spec fn path(&self) -> Seq<char> {
        self.path@
    }

    /// The commands so far.
    pub closed spec fn cmds(&self) -> Seq<UciCmd> {
        cmds_view(self.commands@)
    }

    /// Starts the section `name` of type `section_type` in `file`: its first command sets
    /// the section's type.
    pub fn new(file: &str, name: &str, section_type: &str) -> (r: Self)
        ensures
            r.path() == section_path(file@, name@),
            r.cmds() == seq![UciCmd::SetValue(section_path(file@, name@), section_type@)],
    {
        let mut path = to_string(file);
        proof {
            reveal_strlit(".");
        }
        push_str(&mut path, ".");
        push_str(&mut path, section_prefix());
        push_str(&mut path, name);
        let mut commands: Vec<UciBatchCommand> = Vec::new();
        commands.push(UciBatchCommand::set(path.as_str(), section_type));
        assert(path@ == section_path(file@, name@));
        assert(commands@.len() == 1);
        assert(commands@[0]@ == UciCmd::SetValue(section_path(file@, name@), section_type@));
        let r = UciSectionBuilder { path, commands };
        assert(r.cmds().len() == 1);
        assert(r.cmds() =~= seq![UciCmd::SetValue(section_path(file@, name@), section_type@)]);
        r
    }

    /// The path of the option `prop_name` of this section.
    pub fn prop(&self, prop_name: &str) -> (r: String)
        ensures
            r@ == option_path(self.path(), prop_name@),
    {
        let mut s = self.path.clone();
        proof {
            reveal_strlit(".");
        }
        push_str(&mut s, ".");
        push_str(&mut s, prop_name);
        s
    }

    /// Sets an option.
    pub fn set(self, prop_name: &str, value: &str) -> (r: Self)
        ensures
            r.path() == self.path(),
            r.cmds() == self.cmds().push(UciCmd::SetValue(option_path(self.path(), prop_name@), value@)),
    {
        let p = self.prop(prop_name);
        let mut b = self;
        let ghost c = b.commands@;
        b.commands.push(UciBatchCommand::set(p.as_str(), value));
        assert(cmds_view(b.commands@) =~= cmds_view(c).push(
            UciCmd::SetValue(option_path(b.path(), prop_name@), value@),
        ));
        b
    }

    /// Sets an option when there is a value; leaves the section as it is otherwise.
    pub fn set_if_some(self, prop_name: &str, value: Option<&str>) -> (r: Self)
        ensures
            r.path() == self.path(),
            r.cmds() == match value {
                Some(v) => self.cmds().push(UciCmd::SetValue(option_path(self.path(), prop_name@), v@)),
                None => self.cmds(),
            },
    {
        match value {
            Some(v) => self.set(prop_name, v),
            None => self,
        }
    }

    /// Adds the values to a list option, one `add_list` each, in `String` order.
    pub fn extend_list(self, prop_name: &str, values: Vec<String>) -> (r: Self)
        ensures
            r.path() == self.path(),
            r.cmds() == self.cmds() + add_list_cmds(
                option_path(self.path(), prop_name@),
                sorted_of(strings_view(values@)),
            ),
    {
        let p = self.prop(prop_name);
        let sorted = sorted_strings_of(values);
        let mut b = self;
        let ghost c0 = b.commands@;
        let mut i: usize = 0;
        while i < sorted.len()
            invariant
                i <= sorted.len(),
                p@ == option_path(b.path(), prop_name@),
                b.path() == self.path(),
                cmds_view(b.commands@) == cmds_view(c0) + add_list_cmds(
                    p@,
                    strings_view(sorted@).take(i as int),
                ),
            decreases sorted.len() - i,
        {
            let ghost before = b.commands@;
            b.commands.push(UciBatchCommand::add_list(p.as_str(), sorted[i].as_str()));
            proof {
                assert(strings_view(sorted@).take(i + 1) =~= strings_view(sorted@).take(
                    i as int,
                ).push(sorted@[i as int]@));
                assert(cmds_view(b.commands@) =~= cmds_view(before).push(
                    UciCmd::AddList(p@, sorted@[i as int]@),
                ));
                assert(add_list_cmds(p@, strings_view(sorted@).take(i + 1)) =~= add_list_cmds(
                    p@,
                    strings_view(sorted@).take(i as int),
                ).push(UciCmd::AddList(p@, sorted@[i as int]@)));
            }
            i = i + 1;
        }
        assert(strings_view(sorted@).take(sorted.len() as int) =~= strings_view(sorted@));
        b
    }

    /// The commands of the section.
    pub fn build(self) -> (r: Vec<UciBatchCommand>)
        ensures
            cmds_view(r@) == self.cmds(),
    {
        self.commands
    }
}

/// `set path.prop='value'`
pub open spec fn set_opt(path: Seq<char>, prop: Seq<char>, value: Seq<char>) -> UciCmd {
    UciCmd::SetValue(option_path(path, prop), value)
}

/// The CIDR texts of networks.
pub fn network_strings(v: &Vec<Ipv4Network>) -> (r: Vec<String>)
    ensures
        strings_view(r@) == v@.map_values(|n: Ipv4Network| cidr_text(n@)),
{
    let mut r: Vec<String> = Vec::new();
    let mut i: usize = 0;
    while i < v.len()
        invariant
            i <= v@.len(),
            strings_view(r@) == v@.take(i as int).map_values(|n: Ipv4Network| cidr_text(n@)),
        decreases v@.len() - i,
    {
        let ghost before = r@;
        r.push(v[i].to_string());
        proof {
            assert(v@.take(i + 1) =~= v@.take(i as int).push(v@[i as int]));
            assert(strings_view(r@) =~= strings_view(before).push(cidr_text(v@[i as int]@)));
            assert(v@.take(i + 1).map_values(|n: Ipv4Network| cidr_text(n@)) =~= v@.take(
                i as int,
            ).map_values(|n: Ipv4Network| cidr_text(n@)).push(cidr_text(v@[i as int]@)));
        }
        i = i + 1;
    }
    assert(v@.take(v@.len() as int) =~= v@);
    r
}

/// The CIDR texts of interface addresses.
pub fn interface_strings(v: &Vec<Ipv4Interface>) -> (r: Vec<String>)
    ensures
        strings_view(r@) == v@.map_values(|n: Ipv4Interface| cidr_text(n@)),
{
    let mut r: Vec<String> = Vec::new();
    let mut i: usize = 0;
    while i < v.len()
        invariant
            i <= v@.len(),
            strings_view(r@) == v@.take(i as int).map_values(|n: Ipv4Interface| cidr_text(n@)),
        decreases v@.len() - i,
    {
        let ghost before = r@;
        r.push(v[i].to_string());
        proof {
            assert(v@.take(i + 1) =~= v@.take(i as int).push(v@[i as int]));
            assert(strings_view(r@) =~= strings_view(before).push(cidr_text(v@[i as int]@)));
            assert(v@.take(i + 1).map_values(|n: Ipv4Interface| cidr_text(n@)) =~= v@.take(
                i as int,
            ).map_values(|n: Ipv4Interface| cidr_text(n@)).push(cidr_text(v@[i as int]@)));
        }
        i = i + 1;
    }
    assert(v@.take(v@.len() as int) =~= v@);
    r
}

/// The names of protocols.
pub fn protocol_strings(p: &Protocols) -> (r: Vec<String>)
    ensures
        strings_view(r@) == p@.map_values(|x: Protocol| protocol_text(x)),
{
    let v = p.items();
    let mut r: Vec<String> = Vec::new();
    let mut i: usize = 0;
    while i < v.len()
        invariant
            i <= v@.len(),
            v@ == p@,
            strings_view(r@) == v@.take(i as int).map_values(|x: Protocol| protocol_text(x)),
        decreases v@.len() - i,
    {
        let ghost before = r@;
        r.push(v[i].to_string());
        proof {
            assert(v@.take(i + 1) =~= v@.take(i as int).push(v@[i as int]));
            assert(strings_view(r@) =~= strings_view(before).push(protocol_text(v@[i as int])));
            assert(v@.take(i + 1).map_values(|x: Protocol| protocol_text(x)) =~= v@.take(
                i as int,
            ).map_values(|x: Protocol| protocol_text(x)).push(protocol_text(v@[i as int])));
        }
        i = i + 1;
    }
    assert(v@.take(v@.len() as int) =~= v@);
    r
}

/// The texts of MAC addresses.
pub fn mac_strings(v: &Vec<MacAddress>) -> (r: Vec<String>)
    ensures
        strings_view(r@) == v@.map_values(|m: MacAddress| mac_text(m@)),
{
    let mut r: Vec<String> = Vec::new();
    let mut i: usize = 0;
    while i < v.len()
        invariant
            i <= v@.len(),
            strings_view(r@) == v@.take(i as int).map_values(|m: MacAddress| mac_text(m@)),
        decreases v@.len() - i,
    {
        let ghost before = r@;
        r.push(v[i].to_string());
        proof {
            assert(v@.take(i + 1) =~= v@.take(i as int).push(v@[i as int]));
            assert(strings_view(r@) =~= strings_view(before).push(mac_text(v@[i as int]@)));
            assert(v@.take(i + 1).map_values(|m: MacAddress| mac_text(m@)) =~= v@.take(
                i as int,
            ).map_values(|m: MacAddress| mac_text(m@)).push(mac_text(v@[i as int]@)));
        }
        i = i + 1;
    }
    assert(v@.take(v@.len() as int) =~= v@);
    r
}

/// Where the sections splot owns in `file` begin: `file.` and the section prefix.
pub open spec fn own_prefix(file: Seq<char>) -> Seq<char> {
    file + seq!['.'] + spec_section_prefix()
}

/// The command writes inside a section splot owns in `file`.
pub open spec fn writes_own(c: UciCmd, file: Seq<char>) -> bool {
    match c {
        UciCmd::SetValue(p, _) => starts_with(p, own_prefix(file)),
        UciCmd::AddList(p, _) => starts_with(p, own_prefix(file)),
        _ => false,
    }
}

/// Every command writes inside a section splot owns in `file`.
pub open spec fn all_own(s: Seq<UciCmd>, file: Seq<char>) -> bool {
    forall|i: int| 0 <= i < s.len() ==> writes_own(#[trigger] s[i], file)
}

/// A section's path, and the path of each of its options, begin with the owned prefix.
pub proof fn lemma_section_paths_own(file: Seq<char>, name: Seq<char>)
    ensures
        starts_with(section_path(file, name), own_prefix(file)),
        forall|prop: Seq<char>| starts_with(#[trigger] option_path(section_path(file, name), prop), own_prefix(file)),
{
    let pre = own_prefix(file);
    assert(section_path(file, name).take(pre.len() as int) =~= pre);
    assert forall|prop: Seq<char>| starts_with(#[trigger] option_path(section_path(file, name), prop), pre) by {
        assert(option_path(section_path(file, name), prop).take(pre.len() as int) =~= pre);
    }
}

pub proof fn lemma_all_own_concat(a: Seq<UciCmd>, b: Seq<UciCmd>, file: Seq<char>)
    requires
        all_own(a, file),
        all_own(b, file),
    ensures
        all_own(a + b, file),
{
    assert forall|i: int| 0 <= i < (a + b).len() implies writes_own(#[trigger] (a + b)[i], file) by {
        if i < a.len() {
            assert((a + b)[i] == a[i]);
        } else {
            assert((a + b)[i] == b[i - a.len()]);
        }
    }
}

pub proof fn lemma_all_own_flat_map<A>(s: Seq<A>, f: spec_fn(A) -> Seq<UciCmd>, file: Seq<char>)
    requires
        forall|j: int| 0 <= j < s.len() ==> all_own(f(#[trigger] s[j]), file),
    ensures
        all_own(s.flat_map(f), file),
    decreases s.len(),
{
    if s.len() == 0 {
        assert(s.flat_map(f) =~= Seq::<UciCmd>::empty());
    } else {
        let rest = s.drop_last();
        assert forall|j: int| 0 <= j < rest.len() implies all_own(f(#[trigger] rest[j]), file) by {
            assert(rest[j] == s[j]);
        }
        lemma_all_own_flat_map(rest, f, file);
        rest.lemma_flat_map_push(f, s.last());
        assert(rest.push(s.last()) =~= s);
        assert(all_own(f(s[s.len() - 1]), file));
        lemma_all_own_concat(rest.flat_map(f), f(s.last()), file);
    }
}

} // verus!
