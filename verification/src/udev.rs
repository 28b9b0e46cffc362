//! udev event hints: which port an event concerns and whether it concerns the
//! port's partner object.  Events only prompt a fresh topology read.

use vstd::prelude::*;
use crate::paths::{file_name, pieces, spec_file_name, split_pieces, views};
use crate::sysfs::{is_port_name, spec_is_port_name};
use crate::text::{chars_of, concat, substring};

verus! {

/// The kind of a udev event.
#[derive(Clone, Copy, Debug, PartialEq, Eq, Structural)]
pub enum EventAction {
    Add,
    Change,
    Remove,
    Bind,
    Unbind,
    Unknown,
}

#[derive(Clone, Debug, PartialEq, Eq)]
pub struct EventHint {
    pub port: Option<String>,
    pub action: EventAction,
    pub partner: bool,
}

/// Length of the prefix of `s` before its first `-` or `.`.
pub open spec fn base_len(s: Seq<char>) -> nat
    decreases s.len(),
{
    if s.len() == 0 || s[0] == '-' || s[0] == '.' {
        0
    } else {
        1 + base_len(s.drop_first())
    }
}

/// The prefix of a component before its first `-` or `.`.
pub open spec fn base_of(s: Seq<char>) -> Seq<char> {
    s.subrange(0, base_len(s) as int)
}

/// The port named by the first component whose base is a port name.
pub open spec fn first_port(parts: Seq<Seq<char>>) -> Option<Seq<char>>
    decreases parts.len(),
{
    if parts.len() == 0 {
        None
    } else if spec_is_port_name(base_of(parts[0])) {
        Some(base_of(parts[0]))
    } else {
        first_port(parts.drop_first())
    }
}

proof fn lemma_base_len(s: Seq<char>, i: int)
    requires
        0 <= i <= s.len(),
        forall|j: int| 0 <= j < i ==> s[j] != '-' && s[j] != '.',
        i == s.len() || s[i] == '-' || s[i] == '.',
    ensures
        base_len(s) == i,
    decreases s.len(),
{
    if s.len() > 0 && i > 0 {
        lemma_base_len(s.drop_first(), i - 1);
    }
}

fn base_of_piece(piece: &str) -> (b: String)
    ensures
        b@ == base_of(piece@),
{
    let chars = chars_of(piece);
    let mut i: usize = 0;
    while i < chars.len() && chars[i] != '-' && chars[i] != '.'
        invariant
            chars@ == piece@,
            i <= chars@.len(),
            forall|j: int| 0 <= j < i ==> chars@[j] != '-' && chars@[j] != '.',
        decreases chars@.len() - i,
    {
        i = i + 1;
    }
    proof {
        lemma_base_len(piece@, i as int);
    }
    substring(piece, 0, i)
}

/// The port (`portN`) that a device path belongs to: the base of the first
/// path component that is a port name.
pub fn port_from_syspath(path: &str) -> (port: Option<String>)
    ensures
        match port {
            Some(p) => first_port(pieces(path@)) == Some(p@),
            None => first_port(pieces(path@)) is None,
        },
{
    let parts = split_pieces(path);
    let ghost all = pieces(path@);
    let mut i: usize = 0;
    assert(all.skip(0) =~= all);
    while i < parts.len()
        invariant
            views(parts@) == all,
            all == pieces(path@),
            i <= parts@.len(),
            first_port(all) == first_port(all.skip(i as int)),
        decreases parts@.len() - i,
    {
        let base = base_of_piece(parts[i].as_str());
        proof {
            assert(all.skip(i as int)[0] == parts@[i as int]@);
            assert(all.skip(i as int).drop_first() =~= all.skip(i + 1));
        }
        if is_port_name(base.as_str()) {
            assert(all.skip(i as int).len() > 0);
            assert(first_port(all.skip(i as int)) == Some(base@));
            return Some(base);
        }
        i = i + 1;
    }
    assert(all.skip(i as int).len() == 0);
    None
}

pub open spec fn spec_is_partner_path(path: Seq<char>, port: Option<Seq<char>>) -> bool {
    match port {
        Some(p) => spec_file_name(path) == Some(p + "-partner"@),
        None => false,
    }
}

/// Whether the device path is the partner object of `port` itself.
pub fn is_partner_path(path: &str, port: Option<&str>) -> (yes: bool)
    ensures
        yes == spec_is_partner_path(
            path@,
            match port {
                Some(p) => Some(p@),
                None => None,
            },
        ),
{
    match port {
        Some(p) => match file_name(path) {
            Some(name) => name == concat(p, "-partner"),
            None => false,
        },
        None => false,
    }
}

/// The hint of a udev event on the device at `syspath`.
pub fn normalize(syspath: &str, action: EventAction) -> (hint: EventHint)
    ensures
        match hint.port {
            Some(p) => first_port(pieces(syspath@)) == Some(p@),
            None => first_port(pieces(syspath@)) is None,
        },
        hint.action == action,
        hint.partner == spec_is_partner_path(
            syspath@,
            first_port(pieces(syspath@)),
        ),
{
    let port = port_from_syspath(syspath);
    let partner = match &port {
        Some(p) => is_partner_path(syspath, Some(p.as_str())),
        None => is_partner_path(syspath, None),
    };
    EventHint { port, action, partner }
}

} // verus!
