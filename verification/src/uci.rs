//! Commands of a `uci batch` session.

use vstd::prelude::*;

use crate::text::{push_str, to_string};

verus! {

broadcast use vstd::seq_lib::group_seq_properties;

/// One line of a `uci batch` script.
#[derive(Debug, Clone)]
pub enum UciBatchCommand {
    SetValue(String, String),
    Del(String),
    Add(String, String),
    AddList(String, String),
    Commit(Option<String>),
}

/// What a command says, as text.
pub enum UciCmd {
    SetValue(Seq<char>, Seq<char>),
    Del(Seq<char>),
    Add(Seq<char>, Seq<char>),
    AddList(Seq<char>, Seq<char>),
    Commit(Option<Seq<char>>),
}

impl View for UciBatchCommand {
    type V = UciCmd;

    open spec fn view(&self) -> UciCmd {
        match self {
            UciBatchCommand::SetValue(p, v) => UciCmd::SetValue(p@, v@),
            UciBatchCommand::Del(p) => UciCmd::Del(p@),
            UciBatchCommand::Add(c, s) => UciCmd::Add(c@, s@),
            UciBatchCommand::AddList(p, v) => UciCmd::AddList(p@, v@),
            UciBatchCommand::Commit(c) => UciCmd::Commit(
                match c {
                    Some(c) => Some(c@),
                    None => None,
                },
            ),
        }
    }
}

/// The views of a sequence of commands.
pub open spec fn cmds_view(s: Seq<UciBatchCommand>) -> Seq<UciCmd> {
    s.map_values(|c: UciBatchCommand| c@)
}

/// `'value'`
pub open spec fn quoted(v: Seq<char>) -> Seq<char> {
    seq!['\''] + v + seq!['\'']
}

/// The line a command is written as.
pub open spec fn cmd_text(c: UciCmd) -> Seq<char> {
    match c {
        UciCmd::SetValue(p, v) => seq!['s', 'e', 't', ' '] + p + seq!['='] + quoted(v),
        UciCmd::Del(p) => seq!['d', 'e', 'l', 'e', 't', 'e', ' '] + p,
        UciCmd::Add(c, s) => seq!['a', 'd', 'd', ' '] + c + seq![' '] + s,
        UciCmd::AddList(p, v) => seq!['a', 'd', 'd', '_', 'l', 'i', 's', 't', ' '] + p + seq!['=']
            + quoted(v),
        UciCmd::Commit(c) => match c {
            Some(c) => seq!['c', 'o', 'm', 'm', 'i', 't', ' '] + c,
            None => seq!['c', 'o', 'm', 'm', 'i', 't'],
        },
    }
}

/// Appends the views of `more` to `out`.
pub fn append_cmds(out: &mut Vec<UciBatchCommand>, more: Vec<UciBatchCommand>)
    ensures
        cmds_view(final(out)@) == cmds_view(old(out)@) + cmds_view(more@),
{
    let ghost o = out@;
    let ghost m = more@;
    let mut more = more;
    out.append(&mut more);
    assert(cmds_view(out@) =~= cmds_view(o) + cmds_view(m));
}

impl UciBatchCommand {
    /// `set path='value'`
    pub fn set(path: &str, value: &str) -> (r: Self)
        ensures
            r@ == UciCmd::SetValue(path@, value@),
    {
        UciBatchCommand::SetValue(to_string(path), to_string(value))
    }

    /// `delete path`
    pub fn del(path: &str) -> (r: Self)
        ensures
            r@ == UciCmd::Del(path@),
    {
        UciBatchCommand::Del(to_string(path))
    }

    /// `add config section`
    pub fn add(config: &str, section: &str) -> (r: Self)
        ensures
            r@ == UciCmd::Add(config@, section@),
    {
        UciBatchCommand::Add(to_string(config), to_string(section))
    }

    /// `add_list path='value'`
    pub fn add_list(path: &str, value: &str) -> (r: Self)
        ensures
            r@ == UciCmd::AddList(path@, value@),
    {
        UciBatchCommand::AddList(to_string(path), to_string(value))
    }

    /// `commit config`
    pub fn commit(config: &str) -> (r: Self)
        ensures
            r@ == UciCmd::Commit(Some(config@)),
    {
        UciBatchCommand::Commit(Some(to_string(config)))
    }

    /// The line this command is written as in a `uci batch` script.
    pub fn to_string(&self) -> (r: String)
        ensures
            r@ == cmd_text(self@),
    {
        match self {
            UciBatchCommand::SetValue(p, v) => {
                proof {
                    reveal_strlit("set ");
                    reveal_strlit("='");
                    reveal_strlit("'");
                }
                let mut s = to_string("set ");
                push_str(&mut s, p.as_str());
                push_str(&mut s, "='");
                push_str(&mut s, v.as_str());
                push_str(&mut s, "'");
                assert(s@ =~= cmd_text(self@));
                s
            },
            UciBatchCommand::Del(p) => {
                proof {
                    reveal_strlit("delete ");
                }
                let mut s = to_string("delete ");
                push_str(&mut s, p.as_str());
                s
            },
            UciBatchCommand::Add(c, sec) => {
                proof {
                    reveal_strlit("add ");
                    reveal_strlit(" ");
                }
                let mut s = to_string("add ");
                push_str(&mut s, c.as_str());
                push_str(&mut s, " ");
                push_str(&mut s, sec.as_str());
                s
            },
            UciBatchCommand::AddList(p, v) => {
                proof {
                    reveal_strlit("add_list ");
                    reveal_strlit("='");
                    reveal_strlit("'");
                }
                let mut s = to_string("add_list ");
                push_str(&mut s, p.as_str());
                push_str(&mut s, "='");
                push_str(&mut s, v.as_str());
                push_str(&mut s, "'");
                assert(s@ =~= cmd_text(self@));
                s
            },
            UciBatchCommand::Commit(c) => {
                proof {
                    reveal_strlit("commit ");
                    reveal_strlit("commit");
                }
                match c {
                    Some(c) => {
                        let mut s = to_string("commit ");
                        push_str(&mut s, c.as_str());
                        s
                    },
                    None => to_string("commit"),
                }
            },
        }
    }
}

} // verus!
