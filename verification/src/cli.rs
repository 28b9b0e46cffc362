//! The command line: which command to run, on which ports and sysfs root,
//! and whether writes are allowed.

use vstd::prelude::*;
use crate::error::{Error, ErrorView};
use crate::paths::views;
use crate::text::starts_with_char;

verus! {

pub open spec fn usage_text() -> Seq<char> {
    "usage:\n  cros-typec-selector inspect [PORT] [--sysfs PATH]\n  cros-typec-selector decide [PORT] [--sysfs PATH] [--discovery-expired]\n  cros-typec-selector reconcile [PORT] [--sysfs PATH] [--live]\n  cros-typec-selector daemon [--sysfs PATH] --live\n\nWrites are disabled unless --live is explicit."@
}

pub open spec fn daemon_needs_live_text() -> Seq<char> {
    "daemon requires explicit --live; use inspect/decide/reconcile for read-only operation"@
}

/// The usage text.
pub fn usage() -> (u: &'static str)
    ensures
        u@ == usage_text(),
{
    "usage:\n  cros-typec-selector inspect [PORT] [--sysfs PATH]\n  cros-typec-selector decide [PORT] [--sysfs PATH] [--discovery-expired]\n  cros-typec-selector reconcile [PORT] [--sysfs PATH] [--live]\n  cros-typec-selector daemon [--sysfs PATH] --live\n\nWrites are disabled unless --live is explicit."
}

/// The first index, from `i` on, at which `x` occurs in `s`.
pub open spec fn position_from(s: Seq<Seq<char>>, x: Seq<char>, i: int) -> Option<int>
    decreases s.len() - i,
{
    if i < 0 || i >= s.len() {
        None
    } else if s[i] == x {
        Some(i)
    } else {
        position_from(s, x, i + 1)
    }
}

pub open spec fn position(s: Seq<Seq<char>>, x: Seq<char>) -> Option<int> {
    position_from(s, x, 0)
}

/// Removing the first occurrence of `flag`: whether there was one, and the
/// remaining arguments.
pub open spec fn spec_take_flag(args: Seq<Seq<char>>, flag: Seq<char>) -> (bool, Seq<Seq<char>>) {
    match position(args, flag) {
        Some(i) => (true, args.remove(i)),
        None => (false, args),
    }
}

/// Removing the first occurrence of `flag` and the argument after it: that
/// argument, if there is one, and the remaining arguments.
pub open spec fn spec_take_value(args: Seq<Seq<char>>, flag: Seq<char>) -> (Option<Seq<char>>, Seq<Seq<char>>) {
    match position(args, flag) {
        None => (None, args),
        Some(i) => {
            let rest = args.remove(i);
            if i < rest.len() {
                (Some(rest[i]), rest.remove(i))
            } else {
                (None, rest)
            }
        },
    }
}

proof fn lemma_position_bounds(s: Seq<Seq<char>>, x: Seq<char>, i: int)
    requires
        0 <= i,
    ensures
        match position_from(s, x, i) {
            Some(k) => i <= k < s.len() && s[k] == x,
            None => forall|k: int| i <= k < s.len() ==> s[k] != x,
        },
    decreases s.len() - i,
{
    if i < s.len() && s[i] != x {
        lemma_position_bounds(s, x, i + 1);
    }
}

fn find(args: &Vec<String>, flag: &str) -> (r: Option<usize>)
    ensures
        match r {
            Some(i) => position(views(args@), flag@) == Some(i as int),
            None => position(views(args@), flag@) is None,
        },
{
    let ghost s = views(args@);
    let mut i: usize = 0;
    while i < args.len()
        invariant
            s == views(args@),
            i <= args@.len(),
            position(s, flag@) == position_from(s, flag@, i as int),
        decreases args@.len() - i,
    {
        assert(s[i as int] == args@[i as int]@);
        if args[i] == flag.to_owned() {
            return Some(i);
        }
        i = i + 1;
    }
    None
}

proof fn lemma_views_remove(v: Seq<String>, i: int)
    requires
        0 <= i < v.len(),
    ensures
        views(v.remove(i)) == views(v).remove(i),
{
    assert(views(v.remove(i)) =~= views(v).remove(i));
}

/// Removes the first occurrence of `flag` from `args`; whether there was one.
pub fn take_flag(args: &mut Vec<String>, flag: &str) -> (found: bool)
    ensures
        (found, views(final(args)@)) == spec_take_flag(views(old(args)@), flag@),
{
    match find(args, flag) {
        Some(i) => {
            proof {
                lemma_position_bounds(views(args@), flag@, 0);
                lemma_views_remove(args@, i as int);
            }
            args.remove(i);
            true
        },
        None => false,
    }
}

/// Removes the first occurrence of `flag` from `args`, and the argument after
/// it, which is returned.
pub fn take_value(args: &mut Vec<String>, flag: &str) -> (value: Option<String>)
    ensures
        (match value {
            Some(v) => Some(v@),
            None => None,
        }, views(final(args)@)) == spec_take_value(views(old(args)@), flag@),
{
    match find(args, flag) {
        None => None,
        Some(i) => {
            proof {
                lemma_position_bounds(views(args@), flag@, 0);
                lemma_views_remove(args@, i as int);
            }
            args.remove(i);
            if i < args.len() {
                proof {
                    lemma_views_remove(args@, i as int);
                }
                assert(views(args@)[i as int] == args@[i as int]@);
                Some(args.remove(i))
            } else {
                None
            }
        },
    }
}

/// What the command line asks for.
#[derive(Debug)]
pub enum Command {
    /// Print the usage text.
    Help,
    /// Print the snapshot of one port, or of all.
    Inspect { port: Option<String>, sysfs: String },
    /// Print the candidates and the decision for one port, or for all.
    Decide { port: Option<String>, sysfs: String, discovery_expired: bool },
    /// Reconcile one port, or all, once.
    Reconcile { port: Option<String>, sysfs: String, live: bool },
    /// Reconcile on every change, until stopped.
    Daemon { sysfs: String },
}

pub enum CommandView {
    Help,
    Inspect { port: Option<Seq<char>>, sysfs: Seq<char> },
    Decide { port: Option<Seq<char>>, sysfs: Seq<char>, discovery_expired: bool },
    Reconcile { port: Option<Seq<char>>, sysfs: Seq<char>, live: bool },
    Daemon { sysfs: Seq<char> },
}

pub open spec fn opt_view(o: Option<String>) -> Option<Seq<char>> {
    match o {
        Some(s) => Some(s@),
        None => None,
    }
}

impl View for Command {
    type V = CommandView;

    open spec fn view(&self) -> CommandView {
        match self {
            Command::Help => CommandView::Help,
            Command::Inspect { port, sysfs } => CommandView::Inspect { port: opt_view(*port), sysfs: sysfs@ },
            Command::Decide { port, sysfs, discovery_expired } => CommandView::Decide {
                port: opt_view(*port),
                sysfs: sysfs@,
                discovery_expired: *discovery_expired,
            },
            Command::Reconcile { port, sysfs, live } => CommandView::Reconcile {
                port: opt_view(*port),
                sysfs: sysfs@,
                live: *live,
            },
            Command::Daemon { sysfs } => CommandView::Daemon { sysfs: sysfs@ },
        }
    }
}

pub open spec fn is_help(a: Seq<char>) -> bool {
    a == "-h"@ || a == "--help"@
}

pub open spec fn is_option(a: Seq<char>) -> bool {
    a.len() > 0 && a[0] == '-'
}

/// The command that the arguments (the program name excluded) ask for:
/// help when there are none or one asks for it; otherwise the command word,
/// then `--sysfs PATH`, `--live` and `--discovery-expired` wherever they
/// stand, and at most one port name. Anything else is refused with the usage
/// text, and `daemon` without `--live` with its own message.
pub open spec fn spec_parse_args(args: Seq<Seq<char>>) -> Result<CommandView, ErrorView> {
    if args.len() == 0 || (exists|i: int| 0 <= i < args.len() && is_help(#[trigger] args[i])) {
        Ok(CommandView::Help)
    } else {
        let command = args[0];
        let (root_arg, r1) = spec_take_value(args.drop_first(), "--sysfs"@);
        let sysfs = match root_arg {
            Some(r) => r,
            None => crate::sysfs::default_typec_root(),
        };
        let (live, r2) = spec_take_flag(r1, "--live"@);
        let (expired, r3) = spec_take_flag(r2, "--discovery-expired"@);
        let port = if r3.len() > 0 && !is_option(r3[0]) {
            Some(r3[0])
        } else {
            None
        };
        if (exists|i: int| 0 <= i < r3.len() && is_option(#[trigger] r3[i])) || r3.len() > (if port is Some {
            1int
        } else {
            0int
        }) {
            Err(ErrorView::Unsupported(usage_text()))
        } else if command == "inspect"@ {
            Ok(CommandView::Inspect { port, sysfs })
        } else if command == "decide"@ {
            Ok(CommandView::Decide { port, sysfs, discovery_expired: expired })
        } else if command == "reconcile"@ {
            Ok(CommandView::Reconcile { port, sysfs, live })
        } else if command == "daemon"@ {
            if live {
                Ok(CommandView::Daemon { sysfs })
            } else {
                Err(ErrorView::Unsupported(daemon_needs_live_text()))
            }
        } else {
            Err(ErrorView::Unsupported(usage_text()))
        }
    }
}

fn any_help(args: &Vec<String>) -> (yes: bool)
    ensures
        yes == exists|i: int| 0 <= i < args@.len() && is_help(#[trigger] views(args@)[i]),
{
    let mut i: usize = 0;
    while i < args.len()
        invariant
            i <= args@.len(),
            forall|k: int| 0 <= k < i ==> !is_help(#[trigger] views(args@)[k]),
        decreases args@.len() - i,
    {
        assert(views(args@)[i as int] == args@[i as int]@);
        if args[i] == "-h".to_owned() || args[i] == "--help".to_owned() {
            return true;
        }
        i = i + 1;
    }
    false
}

fn any_option(args: &Vec<String>) -> (yes: bool)
    ensures
        yes == exists|i: int| 0 <= i < args@.len() && is_option(#[trigger] views(args@)[i]),
{
    let mut i: usize = 0;
    while i < args.len()
        invariant
            i <= args@.len(),
            forall|k: int| 0 <= k < i ==> !is_option(#[trigger] views(args@)[k]),
        decreases args@.len() - i,
    {
        assert(views(args@)[i as int] == args@[i as int]@);
        if starts_with_char(args[i].as_str(), '-') {
            return true;
        }
        i = i + 1;
    }
    false
}

/// The command that the arguments ask for (see `spec_parse_args`).
pub fn parse_args(args: Vec<String>) -> (r: Result<Command, Error>)
    ensures
        match r {
            Ok(c) => spec_parse_args(views(args@)) == Ok::<CommandView, ErrorView>(c@),
            Err(e) => spec_parse_args(views(args@)) == Err::<CommandView, ErrorView>(e@),
        },
{
    let ghost a = views(args@);
    let mut args = args;
    if args.len() == 0 || any_help(&args) {
        return Ok(Command::Help);
    }
    let command = args.remove(0);
    proof {
        assert(views(args@) =~= a.drop_first());
        assert(a[0] == command@);
    }
    let sysfs = match take_value(&mut args, "--sysfs") {
        Some(v) => v,
        None => "/sys/class/typec".to_owned(),
    };
    let live = take_flag(&mut args, "--live");
    let expired = take_flag(&mut args, "--discovery-expired");
    let port = if args.len() > 0 && !starts_with_char(args[0].as_str(), '-') {
        assert(views(args@)[0] == args@[0]@);
        Some(args[0].clone())
    } else {
        if args.len() > 0 {
            assert(views(args@)[0] == args@[0]@);
        }
        None
    };
    let allowed: usize = if port.is_some() { 1 } else { 0 };
    if any_option(&args) || args.len() > allowed {
        return Err(Error::Unsupported(usage().to_owned()));
    }
    if command == "inspect".to_owned() {
        Ok(Command::Inspect { port, sysfs })
    } else if command == "decide".to_owned() {
        Ok(Command::Decide { port, sysfs, discovery_expired: expired })
    } else if command == "reconcile".to_owned() {
        Ok(Command::Reconcile { port, sysfs, live })
    } else if command == "daemon".to_owned() {
        if live {
            Ok(Command::Daemon { sysfs })
        } else {
            Err(Error::Unsupported(
                "daemon requires explicit --live; use inspect/decide/reconcile for read-only operation".to_owned(),
            ))
        }
    } else {
        Err(Error::Unsupported(usage().to_owned()))
    }
}

/// Writes are enabled only by an explicit `--live`: a live reconciliation
/// and the daemon are asked for only by arguments that hold `--live`.
pub proof fn law_writes_need_live_flag(args: Seq<Seq<char>>)
    ensures
        spec_parse_args(args) matches Ok(CommandView::Reconcile { live, .. }) && live ==> args.contains("--live"@),
        spec_parse_args(args) matches Ok(CommandView::Daemon { .. }) ==> args.contains("--live"@),
{
    if args.len() > 0 && !(exists|i: int| 0 <= i < args.len() && is_help(#[trigger] args[i])) {
        let rest = args.drop_first();
        let (root_arg, r1) = spec_take_value(rest, "--sysfs"@);
        let (live, r2) = spec_take_flag(r1, "--live"@);
        if live {
            lemma_position_bounds(r1, "--live"@, 0);
            let k = position(r1, "--live"@)->Some_0;
            lemma_take_value_keeps(rest, "--sysfs"@, r1[k]);
            let m = choose|m: int| 0 <= m < rest.len() && rest[m] == r1[k];
            assert(args[m + 1] == "--live"@);
        }
    }
}

/// Every argument left after taking a value was among the arguments.
proof fn lemma_take_value_keeps(args: Seq<Seq<char>>, flag: Seq<char>, x: Seq<char>)
    requires
        spec_take_value(args, flag).1.contains(x),
    ensures
        args.contains(x),
{
    lemma_position_bounds(args, flag, 0);
    let rest = spec_take_value(args, flag).1;
    let j = choose|j: int| 0 <= j < rest.len() && rest[j] == x;
    match position(args, flag) {
        None => {},
        Some(i) => {
            let r0 = args.remove(i);
            if i < r0.len() {
                let jj = if j < i { j } else { j + 1 };
                assert(r0[jj] == x);
                let k = if jj < i { jj } else { jj + 1 };
                assert(args[k] == x);
            } else {
                let k = if j < i { j } else { j + 1 };
                assert(args[k] == x);
            }
        },
    }
}

} // verus!
