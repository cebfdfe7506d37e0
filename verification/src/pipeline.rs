//! One `uci batch` session for a node: delete the sections splot wrote before, write the
//! configuration of each manager, commit each file.

use vstd::prelude::*;

use crate::config::Config;
use crate::consts::{section_prefix, spec_section_prefix};
use crate::entries::lookup;
use crate::managers::all_own;
use crate::managers::dhcp::{DhcpManager, dhcp_commands, lemma_dhcp_commands_own, spec_dhcp_file_name};
use crate::managers::firewall::{FirewallManager, firewall_commands, firewall_ready, lemma_firewall_commands_own};
use crate::managers::network::{
    NetworkManager, lemma_network_commands_own, network_commands, network_ready, spec_network_file_name,
};
use crate::consts::spec_firewall_file_name;
use crate::text::{chars_of, chars_start_with, starts_with, string_of, to_string};
use crate::types::identifier::Identifier;
use crate::uci::{UciBatchCommand, UciCmd, append_cmds, cmds_view};

verus! {

broadcast use {vstd::seq_lib::group_seq_properties, vstd::seq::Seq::group_seq_extra};

/// A manager of one configuration file.
pub enum Manager {
    Network(NetworkManager),
    Firewall(FirewallManager),
    Dhcp(DhcpManager),
}

/// The file a manager writes.
pub open spec fn manager_file(m: Manager) -> Seq<char> {
    match m {
        Manager::Network(_) => spec_network_file_name(),
        Manager::Firewall(_) => spec_firewall_file_name(),
        Manager::Dhcp(_) => spec_dhcp_file_name(),
    }
}

/// What a manager needs to generate the configuration of node `own`.
pub open spec fn manager_ready(m: Manager, config: Config, own: Seq<char>) -> bool {
    match m {
        Manager::Network(_) => network_ready(config, own),
        Manager::Firewall(_) => firewall_ready(config, own),
        Manager::Dhcp(_) => lookup(config.nodes@, own) is Some,
    }
}

/// The commands a manager generates for node `own`.
pub open spec fn manager_commands(m: Manager, config: Config, own: Seq<char>) -> Seq<UciCmd> {
    match m {
        Manager::Network(n) => network_commands(config, own, n.private_key@),
        Manager::Firewall(_) => firewall_commands(config, own),
        Manager::Dhcp(_) => dhcp_commands(config, own),
    }
}

impl Manager {
    /// The file this manager writes.
    pub fn config_file(&self) -> (r: &'static str)
        ensures
            r@ == manager_file(*self),
    {
        match self {
            Manager::Network(n) => n.config_file(),
            Manager::Firewall(f) => f.config_file(),
            Manager::Dhcp(d) => d.config_file(),
        }
    }

    /// Whether this manager can generate the configuration of node `own_name`.
    pub fn is_ready(&self, config: &Config, own_name: &Identifier) -> (r: bool)
        ensures
            r == manager_ready(*self, *config, own_name@),
    {
        match self {
            Manager::Network(n) => n.is_ready(config, own_name),
            Manager::Firewall(f) => f.is_ready(config, own_name),
            Manager::Dhcp(d) => d.is_ready(config, own_name),
        }
    }

    /// The commands that write the configuration of node `own_name`.
    pub fn generate_commands(&self, config: &Config, own_name: &Identifier) -> (r: Vec<UciBatchCommand>)
        requires
            manager_ready(*self, *config, own_name@),
        ensures
            cmds_view(r@) == manager_commands(*self, *config, own_name@),
    {
        match self {
            Manager::Network(n) => n.generate_commands(config, own_name),
            Manager::Firewall(f) => f.generate_commands(config, own_name),
            Manager::Dhcp(d) => d.generate_commands(config, own_name),
        }
    }
}

/// The managers of one session, in order.
pub struct UciPipeline {
    managers: Vec<Manager>,
}

pub open spec fn manager_commands_fn(config: Config, own: Seq<char>) -> spec_fn(Manager) -> Seq<UciCmd> {
    |m: Manager| manager_commands(m, config, own)
}

pub open spec fn commit_fn() -> spec_fn(Manager) -> UciCmd {
    |m: Manager| UciCmd::Commit(Some(manager_file(m)))
}

impl UciPipeline {
    /// The managers.
    pub closed spec fn managers(&self) -> Seq<Manager> {
        self.managers@
    }

    /// A session without managers.
    pub fn new() -> (r: Self)
        ensures
            r.managers() == Seq::<Manager>::empty(),
    {
        UciPipeline { managers: Vec::new() }
    }

    /// Adds a manager after the others.
    pub fn add(self, manager: Manager) -> (r: Self)
        ensures
            r.managers() == self.managers().push(manager),
    {
        let mut p = self;
        p.managers.push(manager);
        p
    }

    /// The files the managers write, in order.
    pub fn config_files(&self) -> (r: Vec<&'static str>)
        ensures
            r@.len() == self.managers().len(),
            forall|i: int| 0 <= i < r@.len() ==> (#[trigger] r@[i])@ == manager_file(self.managers()[i]),
    {
        let mut r: Vec<&'static str> = Vec::new();
        let mut i: usize = 0;
        while i < self.managers.len()
            invariant
                i <= self.managers@.len(),
                r@.len() == i,
                forall|j: int| 0 <= j < i ==> (#[trigger] r@[j])@ == manager_file(self.managers@[j]),
            decreases self.managers@.len() - i,
        {
            r.push(self.managers[i].config_file());
            i = i + 1;
        }
        r
    }

    /// Whether every manager can generate the configuration of node `own_name`.
    pub fn is_ready(&self, config: &Config, own_name: &Identifier) -> (r: bool)
        ensures
            r == forall|i: int|
                0 <= i < self.managers().len() ==> manager_ready(
                    #[trigger] self.managers()[i],
                    *config,
                    own_name@,
                ),
    {
        let mut i: usize = 0;
        while i < self.managers.len()
            invariant
                i <= self.managers@.len(),
                forall|j: int| 0 <= j < i ==> manager_ready(#[trigger] self.managers@[j], *config, own_name@),
            decreases self.managers@.len() - i,
        {
            if !self.managers[i].is_ready(config, own_name) {
                assert(self.managers()[i as int] == self.managers@[i as int]);
                return false;
            }
            i = i + 1;
        }
        true
    }

    /// The session: the deletions, each manager's commands in turn, then a commit of each
    /// manager's file.
    pub fn commands(&self, config: &Config, own_name: &Identifier, deletes: Vec<UciBatchCommand>) -> (r: Vec<
        UciBatchCommand,
    >)
        requires
            forall|i: int|
                0 <= i < self.managers().len() ==> manager_ready(
                    #[trigger] self.managers()[i],
                    *config,
                    own_name@,
                ),
        ensures
            cmds_view(r@) == cmds_view(deletes@) + self.managers().flat_map(
                manager_commands_fn(*config, own_name@),
            ) + self.managers().map_values(commit_fn()),
    {
        assert(self.managers() == self.managers@);
        let mut r = deletes;
        let ghost head = cmds_view(r@);
        let mut i: usize = 0;
        while i < self.managers.len()
            invariant
                i <= self.managers@.len(),
                self.managers() == self.managers@,
                forall|j: int| 0 <= j < self.managers().len() ==> manager_ready(
                    #[trigger] self.managers()[j],
                    *config,
                    own_name@,
                ),
                cmds_view(r@) == head + self.managers@.take(i as int).flat_map(
                    manager_commands_fn(*config, own_name@),
                ),
            decreases self.managers@.len() - i,
        {
            append_cmds(&mut r, self.managers[i].generate_commands(config, own_name));
            i = i + 1;
        }
        assert(self.managers@.take(self.managers@.len() as int) =~= self.managers@);
        let ghost mid = cmds_view(r@);
        let mut k: usize = 0;
        while k < self.managers.len()
            invariant
                k <= self.managers@.len(),
                cmds_view(r@) == mid + self.managers@.take(k as int).map_values(commit_fn()),
            decreases self.managers@.len() - k,
        {
            let ghost before = r@;
            r.push(UciBatchCommand::commit(self.managers[k].config_file()));
            proof {
                assert(self.managers@.take(k + 1) =~= self.managers@.take(k as int).push(self.managers@[k as int]));
                assert(cmds_view(r@) =~= cmds_view(before).push(commit_fn()(self.managers@[k as int])));
                assert(self.managers@.take(k + 1).map_values(commit_fn()) =~= self.managers@.take(
                    k as int,
                ).map_values(commit_fn()).push(commit_fn()(self.managers@[k as int])));
            }
            k = k + 1;
        }
        assert(self.managers@.take(self.managers@.len() as int) =~= self.managers@);
        r
    }
}

/// `i` is the first position in `s` of a `=` or a `.`.
pub open spec fn first_separator(s: Seq<char>, i: int) -> bool {
    &&& 0 <= i < s.len()
    &&& (s[i] == '=' || s[i] == '.')
    &&& forall|j: int| 0 <= j < i ==> s[j] != '=' && s[j] != '.'
}

/// The section a line of `uci show file` declares, if splot wrote it: a line
/// `file.spl_name=type` names the section `file.spl_name`; option lines
/// (`file.spl_name.option=value`) and other sections name none.
pub open spec fn splot_section_of(file: Seq<char>, line: Seq<char>) -> Option<Seq<char>> {
    let prefix = file + seq!['.'] + spec_section_prefix();
    if !starts_with(line, prefix) {
        None
    } else {
        let rest = line.skip(prefix.len() as int);
        if exists|i: int| first_separator(rest, i) {
            let i = choose|i: int| first_separator(rest, i);
            if rest[i] == '.' {
                None
            } else {
                Some(line.take(prefix.len() + i))
            }
        } else {
            None
        }
    }
}

/// The deletion of the section a line of `uci show file` declares, if splot wrote it.
pub fn delete_command_for_line(file: &str, line: &str) -> (r: Option<UciBatchCommand>)
    ensures
        match r {
            Some(c) => splot_section_of(file@, line@) matches Some(p) && c@ == UciCmd::Del(p),
            None => splot_section_of(file@, line@) is None,
        },
{
    proof {
        reveal_strlit(".");
    }
    let mut prefix = to_string(file);
    crate::text::push_str(&mut prefix, ".");
    crate::text::push_str(&mut prefix, section_prefix());
    let ghost pf = file@ + seq!['.'] + spec_section_prefix();
    assert(prefix@ =~= pf);
    let pv = chars_of(prefix.as_str());
    let v = chars_of(line);
    if !chars_start_with(&v, &pv) {
        return None;
    }
    let n = pv.len();
    assert(v@ == line@);
    assert(pv@ == pf);
    let ghost rest = v@.skip(n as int);
    assert(rest == line@.skip(pf.len() as int));
    let mut i: usize = n;
    while i < v.len()
        invariant
            n <= i <= v@.len(),
            n == pf.len(),
            v@ == line@,
            pf == file@ + seq!['.'] + spec_section_prefix(),
            starts_with(line@, pf),
            rest == v@.skip(n as int),
            forall|j: int| 0 <= j < i - n ==> rest[j] != '=' && rest[j] != '.',
        decreases v@.len() - i,
    {
        if v[i] == '=' || v[i] == '.' {
            let ghost k0 = i - n;
            assert(first_separator(rest, k0));
            proof {
                let kc = choose|k: int| first_separator(rest, k);
                if kc < k0 {
                    assert(rest[kc] != '=' && rest[kc] != '.');
                }
                if kc > k0 {
                    assert(rest[k0] != '=' && rest[k0] != '.');
                }
                assert(kc == k0);
                assert(rest[k0] == v@[i as int]);
            }
            if v[i] == '.' {
                return None;
            }
            let path = string_of(&v, 0, i);
            assert(path@ =~= line@.take(pf.len() + k0));
            return Some(UciBatchCommand::Del(path));
        }
        i = i + 1;
    }
    assert(!exists|k: int| first_separator(rest, k));
    None
}

/// Splot writes only its own sections: every command a manager generates writes inside a
/// section of the manager's file whose name carries the section prefix, the same sections
/// that a session deletes first.
pub proof fn lemma_managers_write_own_sections(m: Manager, config: Config, own: Seq<char>)
    ensures
        all_own(manager_commands(m, config, own), manager_file(m)),
{
    match m {
        Manager::Network(n) => lemma_network_commands_own(config, own, n.private_key@),
        Manager::Firewall(_) => lemma_firewall_commands_own(config, own),
        Manager::Dhcp(_) => lemma_dhcp_commands_own(config, own),
    }
}

} // verus!
