//! The sysfs side of the selector: where the Type-C class lives, which
//! attribute writes request a mode change, and how the raw attribute texts of
//! a connector become a `PortSnapshot`.

use vstd::prelude::*;
use crate::error::{Error, ErrorView, IoErrorKind};
use crate::parse::{parse_svid, parse_u32_text, parse_u8_text, spec_parse_svid, spec_parse_u32, spec_parse_u8, trim, trimmed};
use crate::topology::{CableSnapshot, PartnerSnapshot, PdIdentity, Usb4Link};
use crate::paths::{join_path, spec_join};
use crate::policy::Candidate;
use crate::text::{concat, decimal_text, format_decimal, format_hex, hex_text};
use crate::topology::{ActiveMode, AltMode, DataRole, PortSnapshot, UsbMode, UsbModeSet};
use crate::parse::{split_words, words};

verus! {

/// Where the Type-C connector class and the Thunderbolt bus are found.
#[derive(Clone, Debug)]
pub struct Sysfs {
    root: String,
    thunderbolt_root: Option<String>,
}

pub open spec fn default_typec_root() -> Seq<char> {
    "/sys/class/typec"@
}

pub open spec fn default_thunderbolt_root() -> Seq<char> {
    "/sys/bus/thunderbolt/devices"@
}

/// The path denotes `/sys/class/typec` (component by component).
pub open spec fn is_default_typec_root(path: Seq<char>) -> bool {
    path.len() > 0 && path[0] == '/' && crate::paths::pieces(path) == seq![
        seq!['s', 'y', 's'],
        seq!['c', 'l', 'a', 's', 's'],
        seq!['t', 'y', 'p', 'e', 'c'],
    ]
}

impl Sysfs {
    pub closed spec fn spec_root(&self) -> Seq<char> {
        self.root@
    }

    pub closed spec fn spec_thunderbolt_root(&self) -> Option<Seq<char>> {
        match self.thunderbolt_root {
            Some(r) => Some(r@),
            None => None,
        }
    }

    /// The Type-C class at `root`; the Thunderbolt bus is looked up in its
    /// standard place only when `root` is the standard Type-C class path.
    pub fn new(root: String) -> (s: Self)
        ensures
            s.spec_root() == root@,
            s.spec_thunderbolt_root() == if is_default_typec_root(root@) {
                Some(default_thunderbolt_root())
            } else {
                None
            },
    {
        let parts = crate::paths::split_pieces(root.as_str());
        proof {
            reveal_strlit("sys");
            reveal_strlit("class");
            reveal_strlit("typec");
            assert("sys"@ =~= seq!['s', 'y', 's']);
            assert("class"@ =~= seq!['c', 'l', 'a', 's', 's']);
            assert("typec"@ =~= seq!['t', 'y', 'p', 'e', 'c']);
        }
        let standard = crate::text::starts_with_char(root.as_str(), '/') && parts.len() == 3
            && parts[0] == "sys".to_owned() && parts[1] == "class".to_owned() && parts[2]
            == "typec".to_owned();
        proof {
            if standard {
                assert(crate::paths::views(parts@) =~= seq![
                    seq!['s', 'y', 's'],
                    seq!['c', 'l', 'a', 's', 's'],
                    seq!['t', 'y', 'p', 'e', 'c'],
                ]);
            }
            if is_default_typec_root(root@) {
                let v = crate::paths::views(parts@);
                assert(v.len() == 3);
                assert(parts@[0]@ == v[0]);
                assert(parts@[1]@ == v[1]);
                assert(parts@[2]@ == v[2]);
            }
        }
        let thunderbolt_root = if standard {
            Some("/sys/bus/thunderbolt/devices".to_owned())
        } else {
            None
        };
        Sysfs { root, thunderbolt_root }
    }

    /// The same class, with the Thunderbolt bus looked up at `root`.
    pub fn with_thunderbolt_root(self, root: String) -> (s: Self)
        ensures
            s.spec_root() == self.spec_root(),
            s.spec_thunderbolt_root() == Some(root@),
    {
        Sysfs { root: self.root, thunderbolt_root: Some(root) }
    }

    pub fn root(&self) -> (r: &str)
        ensures
            r@ == self.spec_root(),
    {
        self.root.as_str()
    }

    pub fn thunderbolt_root(&self) -> (r: Option<&str>)
        ensures
            match r {
                Some(t) => self.spec_thunderbolt_root() == Some(t@),
                None => self.spec_thunderbolt_root() is None,
            },
    {
        match &self.thunderbolt_root {
            Some(t) => Some(t.as_str()),
            None => None,
        }
    }
}

impl Default for Sysfs {
    fn default() -> (s: Self)
        ensures
            s.spec_root() == default_typec_root(),
    {
        Sysfs::new("/sys/class/typec".to_owned())
    }
}

/// A mode request written to a connector-class attribute.
#[derive(Clone, Debug, PartialEq, Eq)]
pub enum Operation {
    Exit { path: String },
    EnterUsb4 { path: String },
    EnterAltMode { path: String, svid: u16, mode: u8 },
}

pub enum OperationView {
    Exit(Seq<char>),
    EnterUsb4(Seq<char>),
    EnterAltMode(Seq<char>, u16, u8),
}

impl View for Operation {
    type V = OperationView;

    open spec fn view(&self) -> OperationView {
        match self {
            Operation::Exit { path } => OperationView::Exit(path@),
            Operation::EnterUsb4 { path } => OperationView::EnterUsb4(path@),
            Operation::EnterAltMode { path, svid, mode } => OperationView::EnterAltMode(
                path@,
                *svid,
                *mode,
            ),
        }
    }
}

pub open spec fn operation_path(op: OperationView) -> Seq<char> {
    match op {
        OperationView::Exit(p) => p,
        OperationView::EnterUsb4(p) => p,
        OperationView::EnterAltMode(p, _, _) => p,
    }
}

impl Operation {
    /// The attribute that the operation writes.
    pub fn path(&self) -> (p: &str)
        ensures
            p@ == operation_path(self@),
    {
        match self {
            Operation::Exit { path } => path.as_str(),
            Operation::EnterUsb4 { path } => path.as_str(),
            Operation::EnterAltMode { path, .. } => path.as_str(),
        }
    }

    pub fn duplicate(&self) -> (op: Operation)
        ensures
            op == *self,
    {
        match self {
            Operation::Exit { path } => Operation::Exit { path: path.clone() },
            Operation::EnterUsb4 { path } => Operation::EnterUsb4 { path: path.clone() },
            Operation::EnterAltMode { path, svid, mode } => Operation::EnterAltMode {
                path: path.clone(),
                svid: *svid,
                mode: *mode,
            },
        }
    }
}

/// An operation together with the text that requests it.
#[derive(Clone, Debug, PartialEq, Eq)]
pub struct Request {
    pub operation: Operation,
    pub value: String,
}

/// The exit request for the active mode: `usb2` to the partner's `usb_mode`
/// for USB4, `0` to the mode's `active` attribute for an alternate mode.
pub open spec fn spec_exit_request(port: PortSnapshot) -> Option<(OperationView, Seq<char>)> {
    match port.active_mode {
        ActiveMode::Usb4 => match port.partner {
            Some(p) => Some((OperationView::Exit(spec_join(p.syspath@, "usb_mode"@)), "usb2\n"@)),
            None => None,
        },
        ActiveMode::Thunderbolt { syspath } => Some(
            (OperationView::Exit(spec_join(syspath@, "active"@)), "0\n"@),
        ),
        ActiveMode::DisplayPort { syspath } => Some(
            (OperationView::Exit(spec_join(syspath@, "active"@)), "0\n"@),
        ),
        ActiveMode::Other { syspath, .. } => Some(
            (OperationView::Exit(spec_join(syspath@, "active"@)), "0\n"@),
        ),
        ActiveMode::Inactive => None,
    }
}

pub open spec fn exit_refusal(port: PortSnapshot) -> Seq<char> {
    port.name@ + " has no active mode to exit"@
}

/// The first alternate mode with the given SVID and mode number.
pub open spec fn find_mode(modes: Seq<AltMode>, svid: u16, mode: u8) -> Option<AltMode>
    decreases modes.len(),
{
    if modes.len() == 0 {
        None
    } else if modes[0].svid == svid && modes[0].mode == mode {
        Some(modes[0])
    } else {
        find_mode(modes.drop_first(), svid, mode)
    }
}

pub open spec fn vanished_mode_message(svid: u16, mode: u8) -> Seq<char> {
    "mode "@ + hex_text(svid as nat, 4) + ":"@ + decimal_text(mode as nat) + " disappeared"@
}

/// The entry request for a candidate, or why there is none.
pub open spec fn spec_enter_request(port: PortSnapshot, target: Candidate) -> Result<(OperationView, Seq<char>), Seq<char>> {
    match target {
        Candidate::Usb4 => match port.partner {
            Some(p) => Ok(
                (OperationView::EnterUsb4(spec_join(p.syspath@, "usb_mode"@)), "usb4\n"@),
            ),
            None => Err("USB4 without partner"@),
        },
        Candidate::Thunderbolt { svid, mode } => alt_mode_request(port, svid, mode),
        Candidate::DisplayPort { svid, mode } => alt_mode_request(port, svid, mode),
        Candidate::OrdinaryUsb => Err("ordinary USB needs no entry request"@),
    }
}

pub open spec fn alt_mode_request(port: PortSnapshot, svid: u16, mode: u8) -> Result<(OperationView, Seq<char>), Seq<char>> {
    match port.partner {
        Some(p) => match find_mode(p.alt_modes@, svid, mode) {
            Some(m) => Ok(
                (OperationView::EnterAltMode(spec_join(m.syspath@, "active"@), svid, mode), "1\n"@),
            ),
            None => Err(vanished_mode_message(svid, mode)),
        },
        None => Err(vanished_mode_message(svid, mode)),
    }
}

pub open spec fn request_matches(r: Request, expected: (OperationView, Seq<char>)) -> bool {
    r.operation@ == expected.0 && r.value@ == expected.1
}

/// The connector-class requests of a port.
pub trait TypecControl {
    fn exit(&mut self, port: &PortSnapshot) -> Result<Operation, Error>;

    fn enter(&mut self, port: &PortSnapshot, target: &Candidate) -> Result<Operation, Error>;
}

/// Requests through the connector class; in a dry run nothing is written.
#[derive(Debug)]
pub struct SysfsControl {
    dry_run: bool,
}

impl SysfsControl {
    pub closed spec fn is_dry_run(&self) -> bool {
        self.dry_run
    }

    pub fn new(dry_run: bool) -> (c: Self)
        ensures
            c.is_dry_run() == dry_run,
    {
        SysfsControl { dry_run }
    }

    /// Whether requests are only reported, not written.
    pub fn dry_run(&self) -> (d: bool)
        ensures
            d == self.is_dry_run(),
    {
        self.dry_run
    }

    /// The request that exits the active mode of `port`.
    pub fn exit_request(&self, port: &PortSnapshot) -> (r: Result<Request, Error>)
        ensures
            match r {
                Ok(req) => spec_exit_request(*port) matches Some(e) && request_matches(req, e),
                Err(e) => spec_exit_request(*port) is None && (e matches Error::Unsupported(m)
                    && m@ == exit_refusal(*port)),
            },
    {
        let (path, value) = match &port.active_mode {
            ActiveMode::Usb4 => match &port.partner {
                Some(p) => (join_path(p.syspath.as_str(), "usb_mode"), "usb2\n".to_owned()),
                None => {
                    return Err(
                        Error::Unsupported(concat(port.name.as_str(), " has no active mode to exit")),
                    );
                },
            },
            ActiveMode::Thunderbolt { syspath } => (join_path(syspath.as_str(), "active"), "0\n".to_owned()),
            ActiveMode::DisplayPort { syspath } => (join_path(syspath.as_str(), "active"), "0\n".to_owned()),
            ActiveMode::Other { syspath, .. } => (join_path(syspath.as_str(), "active"), "0\n".to_owned()),
            ActiveMode::Inactive => {
                return Err(
                    Error::Unsupported(concat(port.name.as_str(), " has no active mode to exit")),
                );
            },
        };
        Ok(Request { operation: Operation::Exit { path }, value })
    }

    /// The request that enters `target` on `port`.
    pub fn enter_request(&self, port: &PortSnapshot, target: &Candidate) -> (r: Result<Request, Error>)
        ensures
            match r {
                Ok(req) => spec_enter_request(*port, *target) matches Ok(e) && request_matches(req, e),
                Err(e) => spec_enter_request(*port, *target) matches Err(m) && (e matches Error::Unsupported(
                    msg,
                ) && msg@ == m),
            },
    {
        match target {
            Candidate::Usb4 => match &port.partner {
                Some(p) => Ok(
                    Request {
                        operation: Operation::EnterUsb4 {
                            path: join_path(p.syspath.as_str(), "usb_mode"),
                        },
                        value: "usb4\n".to_owned(),
                    },
                ),
                None => Err(Error::Unsupported("USB4 without partner".to_owned())),
            },
            Candidate::Thunderbolt { svid, mode } => alt_mode_entry(port, *svid, *mode),
            Candidate::DisplayPort { svid, mode } => alt_mode_entry(port, *svid, *mode),
            Candidate::OrdinaryUsb => Err(
                Error::Unsupported("ordinary USB needs no entry request".to_owned()),
            ),
        }
    }
}

proof fn lemma_find_mode_step(modes: Seq<AltMode>, svid: u16, mode: u8, i: int)
    requires
        0 <= i < modes.len(),
    ensures
        find_mode(modes.skip(i), svid, mode) == if modes[i].svid == svid && modes[i].mode == mode {
            Some(modes[i])
        } else {
            find_mode(modes.skip(i + 1), svid, mode)
        },
{
    assert(modes.skip(i).drop_first() =~= modes.skip(i + 1));
}

fn first_mode(modes: &Vec<AltMode>, svid: u16, mode: u8) -> (found: Option<usize>)
    ensures
        match found {
            Some(i) => i < modes@.len() && find_mode(modes@, svid, mode) == Some(modes@[i as int]),
            None => find_mode(modes@, svid, mode) is None,
        },
{
    let mut i: usize = 0;
    assert(modes@.skip(0) =~= modes@);
    while i < modes.len()
        invariant
            i <= modes@.len(),
            find_mode(modes@, svid, mode) == find_mode(modes@.skip(i as int), svid, mode),
        decreases modes@.len() - i,
    {
        proof {
            lemma_find_mode_step(modes@, svid, mode, i as int);
        }
        if modes[i].svid == svid && modes[i].mode == mode {
            return Some(i);
        }
        i = i + 1;
    }
    assert(modes@.skip(i as int).len() == 0);
    None
}

fn vanished_mode(svid: u16, mode: u8) -> (e: Error)
    ensures
        e matches Error::Unsupported(m) && m@ == vanished_mode_message(svid, mode),
{
    let mut m = "mode ".to_owned();
    m.append(format_hex(svid as u64, 4).as_str());
    m.append(":");
    m.append(format_decimal(mode as u64).as_str());
    m.append(" disappeared");
    Error::Unsupported(m)
}

fn alt_mode_entry(port: &PortSnapshot, svid: u16, mode: u8) -> (r: Result<Request, Error>)
    ensures
        match r {
            Ok(req) => alt_mode_request(*port, svid, mode) matches Ok(e) && request_matches(req, e),
            Err(e) => alt_mode_request(*port, svid, mode) matches Err(m) && (e matches Error::Unsupported(
                msg,
            ) && msg@ == m),
        },
{
    match &port.partner {
        Some(p) => match first_mode(&p.alt_modes, svid, mode) {
            Some(i) => Ok(
                Request {
                    operation: Operation::EnterAltMode {
                        path: join_path(p.alt_modes[i].syspath.as_str(), "active"),
                        svid,
                        mode,
                    },
                    value: "1\n".to_owned(),
                },
            ),
            None => Err(vanished_mode(svid, mode)),
        },
        None => Err(vanished_mode(svid, mode)),
    }
}

impl TypecControl for SysfsControl {
    /// The operation that exits the active mode.
    fn exit(&mut self, port: &PortSnapshot) -> (r: Result<Operation, Error>)
        ensures
            match r {
                Ok(op) => spec_exit_request(*port) matches Some(e) && op@ == e.0,
                Err(e) => spec_exit_request(*port) is None && (e matches Error::Unsupported(m)
                    && m@ == exit_refusal(*port)),
            },
    {
        match self.exit_request(port) {
            Ok(req) => Ok(req.operation),
            Err(e) => Err(e),
        }
    }

    /// The operation that enters `target`.
    fn enter(&mut self, port: &PortSnapshot, target: &Candidate) -> (r: Result<Operation, Error>)
        ensures
            match r {
                Ok(op) => spec_enter_request(*port, *target) matches Ok(e) && op@ == e.0,
                Err(e) => spec_enter_request(*port, *target) matches Err(m) && (e matches Error::Unsupported(
                    msg,
                ) && msg@ == m),
            },
    {
        match self.enter_request(port, target) {
            Ok(req) => Ok(req.operation),
            Err(e) => Err(e),
        }
    }
}

// ---------------------------------------------------------------- names

pub open spec fn is_digit(c: char) -> bool {
    '0' <= c <= '9'
}

/// `port` followed by one or more decimal digits.
pub open spec fn spec_is_port_name(s: Seq<char>) -> bool {
    &&& s.len() > 4
    &&& s[0] == 'p' && s[1] == 'o' && s[2] == 'r' && s[3] == 't'
    &&& forall|i: int| 4 <= i < s.len() ==> is_digit(#[trigger] s[i])
}

/// Whether `name` names a Type-C port (`port` and decimal digits).
pub fn is_port_name(name: &str) -> (yes: bool)
    ensures
        yes == spec_is_port_name(name@),
{
    let chars = crate::text::chars_of(name);
    if chars.len() <= 4 {
        return false;
    }
    if !(chars[0] == 'p' && chars[1] == 'o' && chars[2] == 'r' && chars[3] == 't') {
        return false;
    }
    let mut i: usize = 4;
    while i < chars.len()
        invariant
            chars@ == name@,
            4 <= i <= chars@.len(),
            forall|j: int| 4 <= j < i ==> is_digit(#[trigger] chars@[j]),
        decreases chars@.len() - i,
    {
        if !('0' <= chars[i] && chars[i] <= '9') {
            return false;
        }
        i = i + 1;
    }
    true
}

// ---------------------------------------------------------------- attribute texts

/// A word enclosed in brackets, which marks the current choice.
pub open spec fn bracketed(w: Seq<char>) -> bool {
    w.len() >= 2 && w[0] == '[' && w.last() == ']'
}

pub open spec fn first_bracketed(ws: Seq<Seq<char>>) -> Option<Seq<char>>
    decreases ws.len(),
{
    if ws.len() == 0 {
        None
    } else if bracketed(ws[0]) {
        Some(ws[0].subrange(1, ws[0].len() - 1))
    } else {
        first_bracketed(ws.drop_first())
    }
}

/// The data role: the bracketed choice if there is one, else the whole text.
pub open spec fn spec_parse_role(v: Seq<char>) -> DataRole {
    let active = match first_bracketed(words(v)) {
        Some(a) => a,
        None => v,
    };
    if active == "host"@ {
        DataRole::Host
    } else if active == "device"@ {
        DataRole::Device
    } else {
        DataRole::Unknown
    }
}

fn strip_brackets_inner(w: &str) -> (inner: Option<String>)
    ensures
        match inner {
            Some(i) => bracketed(w@) && i@ == w@.subrange(1, w@.len() - 1),
            None => !bracketed(w@),
        },
{
    let n = w.unicode_len();
    if n >= 2 && w.get_char(0) == '[' && w.get_char(n - 1) == ']' {
        Some(crate::text::substring(w, 1, n - 1))
    } else {
        None
    }
}

pub fn parse_role(value: &str) -> (role: DataRole)
    ensures
        role == spec_parse_role(value@),
{
    let ws = split_words(value);
    let ghost all = words(value@);
    let mut found: Option<String> = None;
    let mut i: usize = 0;
    assert(all.skip(0) =~= all);
    while i < ws.len()
        invariant_except_break
            found is None,
        invariant
            crate::paths::views(ws@) == all,
            all == words(value@),
            i <= ws@.len(),
            first_bracketed(all) == first_bracketed(all.skip(i as int)),
        ensures
            match found {
                Some(f) => first_bracketed(all) == Some(f@),
                None => first_bracketed(all) is None,
            },
        decreases ws@.len() - i,
    {
        proof {
            assert(all.skip(i as int)[0] == ws@[i as int]@);
            assert(all.skip(i as int).drop_first() =~= all.skip(i + 1));
        }
        match strip_brackets_inner(ws[i].as_str()) {
            Some(inner) => {
                found = Some(inner);
                break;
            },
            None => {},
        }
        i = i + 1;
        if i == ws.len() {
            assert(all.skip(i as int).len() == 0);
        }
    }
    if ws.len() == 0 {
        assert(all.len() == 0);
    }
    let active = match found {
        Some(a) => a,
        None => value.to_owned(),
    };
    if active == "host".to_owned() {
        DataRole::Host
    } else if active == "device".to_owned() {
        DataRole::Device
    } else {
        DataRole::Unknown
    }
}

pub open spec fn is_bracket(c: char) -> bool {
    c == '[' || c == ']'
}

pub open spec fn lead_brackets(s: Seq<char>) -> nat
    decreases s.len(),
{
    if s.len() == 0 || !is_bracket(s[0]) {
        0
    } else {
        1 + lead_brackets(s.drop_first())
    }
}

pub open spec fn trail_brackets(s: Seq<char>) -> nat
    decreases s.len(),
{
    if s.len() == 0 || !is_bracket(s.last()) {
        0
    } else {
        1 + trail_brackets(s.drop_last())
    }
}

/// `w` without leading and trailing brackets (`trim_matches(['[', ']'])`).
pub open spec fn bracket_token(w: Seq<char>) -> Seq<char> {
    let a = w.skip(lead_brackets(w) as int);
    a.take(a.len() - trail_brackets(a))
}

pub open spec fn usb_mode_named(t: Seq<char>) -> Option<UsbMode> {
    if t == "usb2"@ {
        Some(UsbMode::Usb2)
    } else if t == "usb3"@ {
        Some(UsbMode::Usb3)
    } else if t == "usb4"@ {
        Some(UsbMode::Usb4)
    } else {
        None
    }
}

/// The modes named by the words, in order, and the last bracketed one.
pub open spec fn usb_modes_of(ws: Seq<Seq<char>>) -> (Seq<UsbMode>, Option<UsbMode>)
    decreases ws.len(),
{
    if ws.len() == 0 {
        (seq![], None)
    } else {
        let (available, active) = usb_modes_of(ws.drop_last());
        let w = ws.last();
        match usb_mode_named(bracket_token(w)) {
            Some(m) => (
                available.push(m),
                if w.len() > 0 && w[0] == '[' && w.last() == ']' {
                    Some(m)
                } else {
                    active
                },
            ),
            None => (available, active),
        }
    }
}

proof fn lemma_lead_brackets_unique(s: Seq<char>, k: int)
    requires
        0 <= k <= s.len(),
        forall|i: int| 0 <= i < k ==> is_bracket(s[i]),
        k < s.len() ==> !is_bracket(s[k]),
    ensures
        lead_brackets(s) == k,
    decreases s.len(),
{
    if k > 0 {
        lemma_lead_brackets_unique(s.drop_first(), k - 1);
    }
}

proof fn lemma_trail_brackets_unique(s: Seq<char>, k: int)
    requires
        0 <= k <= s.len(),
        forall|i: int| s.len() - k <= i < s.len() ==> is_bracket(s[i]),
        k < s.len() ==> !is_bracket(s[s.len() - k - 1]),
    ensures
        trail_brackets(s) == k,
    decreases s.len(),
{
    if k > 0 {
        lemma_trail_brackets_unique(s.drop_last(), k - 1);
    }
}

fn token_of(w: &str) -> (t: String)
    ensures
        t@ == bracket_token(w@),
{
    let chars = crate::text::chars_of(w);
    let n = chars.len();
    let mut a: usize = 0;
    while a < n && (chars[a] == '[' || chars[a] == ']')
        invariant
            chars@ == w@,
            n == chars@.len(),
            a <= n,
            forall|i: int| 0 <= i < a ==> is_bracket(chars@[i]),
        decreases n - a,
    {
        a = a + 1;
    }
    proof {
        lemma_lead_brackets_unique(w@, a as int);
    }
    let mut b: usize = n;
    while b > a && (chars[b - 1] == '[' || chars[b - 1] == ']')
        invariant
            chars@ == w@,
            n == chars@.len(),
            a <= b <= n,
            forall|i: int| b <= i < n ==> is_bracket(chars@[i]),
        decreases b,
    {
        b = b - 1;
    }
    proof {
        let rest = w@.skip(a as int);
        lemma_trail_brackets_unique(rest, (n - b) as int);
        assert(rest.take(rest.len() - (n - b)) =~= w@.subrange(a as int, b as int));
    }
    crate::text::substring(w, a, b)
}

fn mode_named(t: &String) -> (m: Option<UsbMode>)
    ensures
        m == usb_mode_named(t@),
{
    if *t == "usb2".to_owned() {
        Some(UsbMode::Usb2)
    } else if *t == "usb3".to_owned() {
        Some(UsbMode::Usb3)
    } else if *t == "usb4".to_owned() {
        Some(UsbMode::Usb4)
    } else {
        None
    }
}

/// The USB modes of a `usb_mode` attribute: every known mode word, and the
/// bracketed one as active.
pub fn parse_usb_modes(value: &str) -> (set: UsbModeSet)
    ensures
        set.available@ == usb_modes_of(words(value@)).0,
        set.active == usb_modes_of(words(value@)).1,
{
    let ws = split_words(value);
    let ghost all = words(value@);
    let mut result = UsbModeSet { available: Vec::new(), active: None };
    let mut i: usize = 0;
    assert(all.take(0) =~= Seq::<Seq<char>>::empty());
    while i < ws.len()
        invariant
            crate::paths::views(ws@) == all,
            i <= ws@.len(),
            result.available@ == usb_modes_of(all.take(i as int)).0,
            result.active == usb_modes_of(all.take(i as int)).1,
        decreases ws@.len() - i,
    {
        let word = ws[i].as_str();
        proof {
            assert(all.take(i + 1).drop_last() =~= all.take(i as int));
            assert(all.take(i + 1).last() == word@);
        }
        let active = crate::text::starts_with_char(word, '[') && crate::text::ends_with_char(word, ']');
        let token = token_of(word);
        match mode_named(&token) {
            Some(mode) => {
                result.available.push(mode);
                if active {
                    result.active = Some(mode);
                }
            },
            None => {},
        }
        i = i + 1;
    }
    assert(all.take(ws@.len() as int) =~= all);
    result
}

// ---------------------------------------------------------------- snapshots

/// The content of an attribute file: `Ok(None)` when it does not exist.
pub type ReadText = Result<Option<String>, Error>;

pub open spec fn text_view(r: ReadText) -> Result<Option<Seq<char>>, ErrorView> {
    match r {
        Ok(Some(t)) => Ok(Some(t@)),
        Ok(None) => Ok(None),
        Err(e) => Err(e@),
    }
}

/// The attribute files of an `identity` directory.
#[derive(Debug)]
pub struct RawIdentity {
    pub id_header: ReadText,
    pub cert_stat: ReadText,
    pub product: ReadText,
    pub product_type_vdo1: ReadText,
    pub product_type_vdo2: ReadText,
    pub product_type_vdo3: ReadText,
}

/// The attribute files of an alternate-mode directory at `syspath`.
#[derive(Debug)]
pub struct RawAltMode {
    pub syspath: String,
    pub svid: ReadText,
    pub mode: ReadText,
    pub vdo: ReadText,
    pub active: ReadText,
}

/// The attribute files of a partner directory (`identity` when that
/// directory exists; `alt_modes` as listed by `alt_mode_paths`).
#[derive(Debug)]
pub struct RawPartner {
    pub supports_pd: ReadText,
    pub pd_revision: ReadText,
    pub identity: Option<RawIdentity>,
    pub usb_mode: ReadText,
    pub alt_modes: Result<Vec<RawAltMode>, Error>,
}

/// The attribute files of a cable directory, with the modes of its first plug
/// (empty when there is no plug).
#[derive(Debug)]
pub struct RawCable {
    pub pd_revision: ReadText,
    pub identity: Option<RawIdentity>,
    pub plug_modes: Result<Vec<RawAltMode>, Error>,
}

/// What was read for a port: whether its directory exists, its data role,
/// its partner and cable directories (when they exist), and its USB4 link.
#[derive(Debug)]
pub struct RawPort {
    pub name: String,
    pub exists: bool,
    pub data_role: ReadText,
    pub partner: Option<RawPartner>,
    pub cable: Option<RawCable>,
    pub usb4: Result<(Option<Usb4Link>, bool), Error>,
}

pub open spec fn parse_failure(path: Seq<char>, value: Seq<char>, expected: Seq<char>) -> ErrorView {
    ErrorView::Parse { path, value, expected }
}

pub open spec fn not_found(path: Seq<char>) -> ErrorView {
    ErrorView::Io { path, kind: IoErrorKind::NotFound, detail: "entity not found"@ }
}

/// An optional numeric attribute `file` of `dir`.
pub open spec fn optional_number(dir: Seq<char>, file: Seq<char>, r: ReadText) -> Result<Option<u32>, ErrorView> {
    match text_view(r) {
        Err(e) => Err(e),
        Ok(None) => Ok(None),
        Ok(Some(t)) => match spec_parse_u32(trimmed(t)) {
            Some(n) => Ok(Some(n as u32)),
            None => Err(parse_failure(spec_join(dir, file), trimmed(t), "u32"@)),
        },
    }
}

pub open spec fn or_zero(v: Option<u32>) -> u32 {
    match v {
        Some(x) => x,
        None => 0,
    }
}

/// The identity of the directory `dir` (an `identity` directory).
pub open spec fn spec_identity(dir: Seq<char>, raw: RawIdentity) -> Result<Option<PdIdentity>, ErrorView> {
    match text_view(raw.id_header) {
        Err(e) => Err(e),
        Ok(None) => Ok(None),
        Ok(Some(_)) => match optional_number(dir, "id_header"@, raw.id_header) {
            Err(e) => Err(e),
            Ok(header) => match optional_number(dir, "cert_stat"@, raw.cert_stat) {
                Err(e) => Err(e),
                Ok(cert) => match optional_number(dir, "product"@, raw.product) {
                    Err(e) => Err(e),
                    Ok(product) => match optional_number(dir, "product_type_vdo1"@, raw.product_type_vdo1) {
                        Err(e) => Err(e),
                        Ok(v1) => match optional_number(dir, "product_type_vdo2"@, raw.product_type_vdo2) {
                            Err(e) => Err(e),
                            Ok(v2) => match optional_number(dir, "product_type_vdo3"@, raw.product_type_vdo3) {
                                Err(e) => Err(e),
                                Ok(v3) => Ok(
                                    Some(
                                        PdIdentity {
                                            id_header: or_zero(header),
                                            cert_stat: or_zero(cert),
                                            product: or_zero(product),
                                            product_type_vdos: [v1, v2, v3],
                                        },
                                    ),
                                ),
                            },
                        },
                    },
                },
            },
        },
    }
}

fn read_number(dir: &str, file: &str, r: &ReadText) -> (n: Result<Option<u32>, Error>)
    ensures
        match n {
            Ok(v) => optional_number(dir@, file@, *r) == Ok::<Option<u32>, ErrorView>(v),
            Err(e) => optional_number(dir@, file@, *r) == Err::<Option<u32>, ErrorView>(e@),
        },
{
    match r {
        Err(e) => Err(e.duplicate()),
        Ok(None) => Ok(None),
        Ok(Some(t)) => {
            let tt = trim(t.as_str());
            match parse_u32_text(tt.as_str()) {
                Some(v) => Ok(Some(v)),
                None => {
                    proof {
                        reveal_strlit("u32");
                    }
                    Err(Error::Parse { path: join_path(dir, file), value: tt, expected: "u32".to_owned() })
                },
            }
        },
    }
}

fn read_identity(dir: &str, raw: &RawIdentity) -> (r: Result<Option<PdIdentity>, Error>)
    ensures
        match r {
            Ok(v) => spec_identity(dir@, *raw) == Ok::<Option<PdIdentity>, ErrorView>(v),
            Err(e) => spec_identity(dir@, *raw) == Err::<Option<PdIdentity>, ErrorView>(e@),
        },
{
    match &raw.id_header {
        Err(e) => return Err(e.duplicate()),
        Ok(None) => return Ok(None),
        Ok(Some(_)) => {},
    }
    let header = match read_number(dir, "id_header", &raw.id_header) {
        Ok(v) => v,
        Err(e) => return Err(e),
    };
    let cert = match read_number(dir, "cert_stat", &raw.cert_stat) {
        Ok(v) => v,
        Err(e) => return Err(e),
    };
    let product = match read_number(dir, "product", &raw.product) {
        Ok(v) => v,
        Err(e) => return Err(e),
    };
    let v1 = match read_number(dir, "product_type_vdo1", &raw.product_type_vdo1) {
        Ok(v) => v,
        Err(e) => return Err(e),
    };
    let v2 = match read_number(dir, "product_type_vdo2", &raw.product_type_vdo2) {
        Ok(v) => v,
        Err(e) => return Err(e),
    };
    let v3 = match read_number(dir, "product_type_vdo3", &raw.product_type_vdo3) {
        Ok(v) => v,
        Err(e) => return Err(e),
    };
    let id = PdIdentity {
        id_header: match header {
            Some(x) => x,
            None => 0,
        },
        cert_stat: match cert {
            Some(x) => x,
            None => 0,
        },
        product: match product {
            Some(x) => x,
            None => 0,
        },
        product_type_vdos: [v1, v2, v3],
    };
    Ok(Some(id))
}

/// The numbers and flag of an alternate mode: SVID, mode, VDO, active.
pub open spec fn spec_alt_mode(raw: RawAltMode) -> Result<(u16, u8, u32, bool), ErrorView> {
    let dir = raw.syspath@;
    match text_view(raw.svid) {
        Err(e) => Err(e),
        Ok(None) => Err(not_found(spec_join(dir, "svid"@))),
        Ok(Some(sv)) => match spec_parse_svid(trimmed(sv)) {
            None => Err(parse_failure(spec_join(dir, "svid"@), trimmed(sv), "hex SVID"@)),
            Some(svid) => match text_view(raw.mode) {
                Err(e) => Err(e),
                Ok(None) => Err(not_found(spec_join(dir, "mode"@))),
                Ok(Some(mv)) => match spec_parse_u8(trimmed(mv)) {
                    None => Err(parse_failure(spec_join(dir, "mode"@), trimmed(mv), "mode number"@)),
                    Some(mode) => match optional_number(dir, "vdo"@, raw.vdo) {
                        Err(e) => Err(e),
                        Ok(vdo) => match text_view(raw.active) {
                            Err(e) => Err(e),
                            Ok(a) => Ok(
                                (
                                    svid as u16,
                                    mode as u8,
                                    or_zero(vdo),
                                    a matches Some(t) && (trimmed(t) == "yes"@ || trimmed(t)
                                        == "1"@),
                                ),
                            ),
                        },
                    },
                },
            },
        },
    }
}

pub open spec fn alt_mode_matches(m: AltMode, raw: RawAltMode, v: (u16, u8, u32, bool)) -> bool {
    &&& m.syspath == raw.syspath
    &&& m.svid == v.0
    &&& m.mode == v.1
    &&& m.vdo == v.2
    &&& m.active == v.3
}

fn not_found_error(path: String) -> (e: Error)
    ensures
        e@ == not_found(path@),
{
    Error::Io { path, kind: IoErrorKind::NotFound, detail: "entity not found".to_owned() }
}

fn read_alt_mode(raw: &RawAltMode) -> (r: Result<AltMode, Error>)
    ensures
        match r {
            Ok(m) => spec_alt_mode(*raw) matches Ok(v) && alt_mode_matches(m, *raw, v),
            Err(e) => spec_alt_mode(*raw) == Err::<(u16, u8, u32, bool), ErrorView>(e@),
        },
{
    let dir = raw.syspath.as_str();
    let svid = match &raw.svid {
        Err(e) => return Err(e.duplicate()),
        Ok(None) => return Err(not_found_error(join_path(dir, "svid"))),
        Ok(Some(sv)) => {
            let t = trim(sv.as_str());
            match parse_svid(t.as_str()) {
                Some(v) => v,
                None => {
                    return Err(
                        Error::Parse {
                            path: join_path(dir, "svid"),
                            value: t,
                            expected: "hex SVID".to_owned(),
                        },
                    );
                },
            }
        },
    };
    let mode = match &raw.mode {
        Err(e) => return Err(e.duplicate()),
        Ok(None) => return Err(not_found_error(join_path(dir, "mode"))),
        Ok(Some(mv)) => {
            let t = trim(mv.as_str());
            match parse_u8_text(t.as_str()) {
                Some(v) => v,
                None => {
                    return Err(
                        Error::Parse {
                            path: join_path(dir, "mode"),
                            value: t,
                            expected: "mode number".to_owned(),
                        },
                    );
                },
            }
        },
    };
    let vdo = match read_number(dir, "vdo", &raw.vdo) {
        Ok(Some(v)) => v,
        Ok(None) => 0,
        Err(e) => return Err(e),
    };
    let active = match &raw.active {
        Err(e) => return Err(e.duplicate()),
        Ok(None) => false,
        Ok(Some(a)) => {
            let t = trim(a.as_str());
            t == "yes".to_owned() || t == "1".to_owned()
        },
    };
    Ok(AltMode { syspath: raw.syspath.clone(), svid, mode, vdo, active })
}

/// The alternate modes, in order, or the first error.
pub open spec fn spec_alt_modes(raws: Seq<RawAltMode>) -> Result<Seq<(u16, u8, u32, bool)>, ErrorView>
    decreases raws.len(),
{
    if raws.len() == 0 {
        Ok(seq![])
    } else {
        match spec_alt_mode(raws[0]) {
            Err(e) => Err(e),
            Ok(m) => match spec_alt_modes(raws.drop_first()) {
                Err(e) => Err(e),
                Ok(rest) => Ok(seq![m] + rest),
            },
        }
    }
}

pub open spec fn alt_modes_match(modes: Seq<AltMode>, raws: Seq<RawAltMode>, v: Seq<(u16, u8, u32, bool)>) -> bool {
    &&& modes.len() == raws.len()
    &&& v.len() == raws.len()
    &&& forall|i: int| 0 <= i < modes.len() ==> alt_mode_matches(#[trigger] modes[i], raws[i], v[i])
}

proof fn lemma_alt_modes_split(raws: Seq<RawAltMode>, i: int)
    requires
        0 <= i < raws.len(),
    ensures
        spec_alt_modes(raws.skip(i)) == match spec_alt_mode(raws[i]) {
            Err(e) => Err(e),
            Ok(m) => match spec_alt_modes(raws.skip(i + 1)) {
                Err(e) => Err(e),
                Ok(rest) => Ok(seq![m] + rest),
            },
        },
{
    assert(raws.skip(i).drop_first() =~= raws.skip(i + 1));
}

fn read_alt_modes(raws: &Vec<RawAltMode>) -> (r: Result<Vec<AltMode>, Error>)
    ensures
        match r {
            Ok(modes) => spec_alt_modes(raws@) matches Ok(v) && alt_modes_match(modes@, raws@, v),
            Err(e) => spec_alt_modes(raws@) == Err::<Seq<(u16, u8, u32, bool)>, ErrorView>(e@),
        },
{
    let ghost all = raws@;
    let mut out: Vec<AltMode> = Vec::new();
    let ghost mut done: Seq<(u16, u8, u32, bool)> = seq![];
    let n = raws.len();
    let mut k: usize = 0;
    assert(all.skip(0) =~= all);
    assert(done + Seq::<(u16, u8, u32, bool)>::empty() =~= done);
    while k < n
        invariant
            all == raws@,
            n == all.len(),
            k <= n,
            out@.len() == k,
            done.len() == k,
            forall|i: int| 0 <= i < k ==> alt_mode_matches(#[trigger] out@[i], all[i], done[i]),
            spec_alt_modes(all) == match spec_alt_modes(all.skip(k as int)) {
                Err(e) => Err(e),
                Ok(tail) => Ok(done + tail),
            },
        decreases n - k,
    {
        proof {
            lemma_alt_modes_split(all, k as int);
        }
        match read_alt_mode(&raws[k]) {
            Err(e) => return Err(e),
            Ok(m) => {
                proof {
                    let v = spec_alt_mode(all[k as int])->Ok_0;
                    match spec_alt_modes(all.skip(k + 1)) {
                        Err(e) => {},
                        Ok(tail) => {
                            assert(done + (seq![v] + tail) =~= done.push(v) + tail);
                        },
                    }
                    done = done.push(v);
                }
                out.push(m);
                k = k + 1;
            },
        }
    }
    proof {
        assert(all.skip(n as int) =~= Seq::<RawAltMode>::empty());
        assert(done + Seq::<(u16, u8, u32, bool)>::empty() =~= done);
    }
    Ok(out)
}

/// What a partner directory says.
pub struct PartnerShape {
    pub supports_pd: bool,
    pub pd_revision: Option<Seq<char>>,
    pub identity: Option<PdIdentity>,
    pub usb_modes: (Seq<UsbMode>, Option<UsbMode>),
    pub modes: Seq<(u16, u8, u32, bool)>,
}

pub open spec fn trimmed_text(o: Option<Seq<char>>) -> Option<Seq<char>> {
    match o {
        Some(t) => Some(trimmed(t)),
        None => None,
    }
}

pub open spec fn spec_identity_of(owner: Seq<char>, raw: Option<RawIdentity>) -> Result<Option<PdIdentity>, ErrorView> {
    match raw {
        None => Ok(None),
        Some(r) => spec_identity(spec_join(owner, "identity"@), r),
    }
}

pub open spec fn spec_mode_list(r: Result<Vec<RawAltMode>, Error>) -> Result<Seq<(u16, u8, u32, bool)>, ErrorView> {
    match r {
        Err(e) => Err(e@),
        Ok(v) => spec_alt_modes(v@),
    }
}

/// The partner at `path`, or the first error in reading order.
pub open spec fn spec_partner(path: Seq<char>, raw: RawPartner) -> Result<PartnerShape, ErrorView> {
    match text_view(raw.supports_pd) {
        Err(e) => Err(e),
        Ok(pd) => match text_view(raw.pd_revision) {
            Err(e) => Err(e),
            Ok(rev) => match spec_identity_of(path, raw.identity) {
                Err(e) => Err(e),
                Ok(identity) => match text_view(raw.usb_mode) {
                    Err(e) => Err(e),
                    Ok(usb) => match spec_mode_list(raw.alt_modes) {
                        Err(e) => Err(e),
                        Ok(modes) => Ok(
                            PartnerShape {
                                supports_pd: pd matches Some(t) && trimmed(t) == "yes"@,
                                pd_revision: trimmed_text(rev),
                                identity,
                                usb_modes: match usb {
                                    Some(t) => usb_modes_of(words(trimmed(t))),
                                    None => (seq![], None),
                                },
                                modes,
                            },
                        ),
                    },
                },
            },
        },
    }
}

pub open spec fn option_view(o: Option<String>) -> Option<Seq<char>> {
    match o {
        Some(s) => Some(s@),
        None => None,
    }
}

pub open spec fn partner_matches(p: PartnerSnapshot, path: Seq<char>, raw: RawPartner, shape: PartnerShape) -> bool {
    &&& p.syspath@ == path
    &&& p.supports_pd == shape.supports_pd
    &&& option_view(p.pd_revision) == shape.pd_revision
    &&& p.identity == shape.identity
    &&& p.usb_modes.available@ == shape.usb_modes.0
    &&& p.usb_modes.active == shape.usb_modes.1
    &&& raw.alt_modes matches Ok(raws) && alt_modes_match(p.alt_modes@, raws@, shape.modes)
}

/// What a cable directory says.
pub struct CableShape {
    pub pd_revision: Option<Seq<char>>,
    pub identity: Option<PdIdentity>,
    pub modes: Seq<(u16, u8, u32, bool)>,
}

pub open spec fn spec_cable(path: Seq<char>, raw: RawCable) -> Result<CableShape, ErrorView> {
    match text_view(raw.pd_revision) {
        Err(e) => Err(e),
        Ok(rev) => match spec_identity_of(path, raw.identity) {
            Err(e) => Err(e),
            Ok(identity) => match spec_mode_list(raw.plug_modes) {
                Err(e) => Err(e),
                Ok(modes) => Ok(CableShape { pd_revision: trimmed_text(rev), identity, modes }),
            },
        },
    }
}

pub open spec fn cable_matches(c: CableSnapshot, path: Seq<char>, raw: RawCable, shape: CableShape) -> bool {
    &&& c.syspath@ == path
    &&& option_view(c.pd_revision) == shape.pd_revision
    &&& c.identity == shape.identity
    &&& raw.plug_modes matches Ok(raws) && alt_modes_match(c.plug_modes@, raws@, shape.modes)
}

fn read_text_trimmed(r: &ReadText) -> (t: Result<Option<String>, Error>)
    ensures
        match t {
            Ok(o) => text_view(*r) matches Ok(x) && option_view(o) == trimmed_text(x),
            Err(e) => text_view(*r) == Err::<Option<Seq<char>>, ErrorView>(e@),
        },
{
    match r {
        Err(e) => Err(e.duplicate()),
        Ok(None) => Ok(None),
        Ok(Some(t)) => Ok(Some(trim(t.as_str()))),
    }
}

fn read_identity_of(owner: &str, raw: &Option<RawIdentity>) -> (r: Result<Option<PdIdentity>, Error>)
    ensures
        match r {
            Ok(v) => spec_identity_of(owner@, *raw) == Ok::<Option<PdIdentity>, ErrorView>(v),
            Err(e) => spec_identity_of(owner@, *raw) == Err::<Option<PdIdentity>, ErrorView>(e@),
        },
{
    match raw {
        None => Ok(None),
        Some(ri) => {
            let dir = join_path(owner, "identity");
            read_identity(dir.as_str(), ri)
        },
    }
}

fn read_mode_list(r: &Result<Vec<RawAltMode>, Error>) -> (m: Result<Vec<AltMode>, Error>)
    ensures
        match m {
            Ok(modes) => spec_mode_list(*r) matches Ok(v) && (r matches Ok(raws) && alt_modes_match(
                modes@,
                raws@,
                v,
            )),
            Err(e) => spec_mode_list(*r) == Err::<Seq<(u16, u8, u32, bool)>, ErrorView>(e@),
        },
{
    match r {
        Err(e) => Err(e.duplicate()),
        Ok(raws) => read_alt_modes(raws),
    }
}

fn read_partner(path: String, raw: &RawPartner) -> (r: Result<PartnerSnapshot, Error>)
    ensures
        match r {
            Ok(p) => spec_partner(path@, *raw) matches Ok(shape) && partner_matches(p, path@, *raw, shape),
            Err(e) => spec_partner(path@, *raw) == Err::<PartnerShape, ErrorView>(e@),
        },
{
    let supports_pd = match read_text_trimmed(&raw.supports_pd) {
        Err(e) => return Err(e),
        Ok(Some(t)) => t == "yes".to_owned(),
        Ok(None) => false,
    };
    let pd_revision = match read_text_trimmed(&raw.pd_revision) {
        Err(e) => return Err(e),
        Ok(o) => o,
    };
    let identity = match read_identity_of(path.as_str(), &raw.identity) {
        Err(e) => return Err(e),
        Ok(i) => i,
    };
    let usb_modes = match read_text_trimmed(&raw.usb_mode) {
        Err(e) => return Err(e),
        Ok(Some(t)) => parse_usb_modes(t.as_str()),
        Ok(None) => {
            let set = UsbModeSet { available: Vec::new(), active: None };
            assert(set.available@ =~= Seq::<UsbMode>::empty());
            set
        },
    };
    let alt_modes = match read_mode_list(&raw.alt_modes) {
        Err(e) => return Err(e),
        Ok(m) => m,
    };
    Ok(PartnerSnapshot { syspath: path, supports_pd, pd_revision, identity, usb_modes, alt_modes })
}

fn read_cable(path: String, raw: &RawCable) -> (r: Result<CableSnapshot, Error>)
    ensures
        match r {
            Ok(c) => spec_cable(path@, *raw) matches Ok(shape) && cable_matches(c, path@, *raw, shape),
            Err(e) => spec_cable(path@, *raw) == Err::<CableShape, ErrorView>(e@),
        },
{
    let pd_revision = match read_text_trimmed(&raw.pd_revision) {
        Err(e) => return Err(e),
        Ok(o) => o,
    };
    let identity = match read_identity_of(path.as_str(), &raw.identity) {
        Err(e) => return Err(e),
        Ok(i) => i,
    };
    let plug_modes = match read_mode_list(&raw.plug_modes) {
        Err(e) => return Err(e),
        Ok(m) => m,
    };
    Ok(CableSnapshot { syspath: path, pd_revision, identity, plug_modes })
}

/// The first active alternate mode.
pub open spec fn first_active(modes: Seq<AltMode>) -> Option<AltMode>
    decreases modes.len(),
{
    if modes.len() == 0 {
        None
    } else if modes[0].active {
        Some(modes[0])
    } else {
        first_active(modes.drop_first())
    }
}

/// The active mode of a partner: USB4 when it is the active USB mode, else
/// the first active alternate mode, else none.
pub open spec fn spec_active_mode(partner: Option<PartnerSnapshot>) -> ActiveMode {
    match partner {
        None => ActiveMode::Inactive,
        Some(p) => if p.usb_modes.active == Some(UsbMode::Usb4) {
            ActiveMode::Usb4
        } else {
            match first_active(p.alt_modes@) {
                Some(m) => if m.svid == crate::vdo::THUNDERBOLT_SVID {
                    ActiveMode::Thunderbolt { syspath: m.syspath }
                } else if m.svid == crate::vdo::DISPLAYPORT_SVID {
                    ActiveMode::DisplayPort { syspath: m.syspath }
                } else {
                    ActiveMode::Other { svid: m.svid, syspath: m.syspath }
                },
                None => ActiveMode::Inactive,
            }
        },
    }
}

pub fn active_mode(partner: Option<&PartnerSnapshot>) -> (m: ActiveMode)
    ensures
        m == spec_active_mode(
            match partner {
                Some(p) => Some(*p),
                None => None,
            },
        ),
{
    let p = match partner {
        Some(p) => p,
        None => return ActiveMode::Inactive,
    };
    if p.usb_modes.active == Some(UsbMode::Usb4) {
        return ActiveMode::Usb4;
    }
    let modes = &p.alt_modes;
    let mut i: usize = 0;
    assert(modes@.skip(0) =~= modes@);
    while i < modes.len()
        invariant
            i <= modes@.len(),
            modes@ == p.alt_modes@,
            p.usb_modes.active != Some(UsbMode::Usb4),
            partner == Some(p),
            first_active(modes@) == first_active(modes@.skip(i as int)),
        decreases modes@.len() - i,
    {
        assert(modes@.skip(i as int).drop_first() =~= modes@.skip(i + 1));
        if modes[i].active {
            assert(first_active(modes@.skip(i as int)) == Some(modes@[i as int]));
            let m = &modes[i];
            return if m.svid == crate::vdo::THUNDERBOLT_SVID {
                ActiveMode::Thunderbolt { syspath: m.syspath.clone() }
            } else if m.svid == crate::vdo::DISPLAYPORT_SVID {
                ActiveMode::DisplayPort { syspath: m.syspath.clone() }
            } else {
                ActiveMode::Other { svid: m.svid, syspath: m.syspath.clone() }
            };
        }
        i = i + 1;
    }
    assert(modes@.skip(i as int).len() == 0);
    ActiveMode::Inactive
}

/// What a port directory says.
pub struct PortShape {
    pub data_role: Option<DataRole>,
    pub partner: Option<PartnerShape>,
    pub cable: Option<CableShape>,
}

pub open spec fn port_path_of(root: Seq<char>, name: Seq<char>) -> Seq<char> {
    spec_join(root, name)
}

pub open spec fn partner_path_of(root: Seq<char>, name: Seq<char>) -> Seq<char> {
    spec_join(root, name + "-partner"@)
}

pub open spec fn cable_path_of(root: Seq<char>, name: Seq<char>) -> Seq<char> {
    spec_join(root, name + "-cable"@)
}

pub open spec fn plug_path_of(root: Seq<char>, name: Seq<char>) -> Seq<char> {
    spec_join(root, name + "-plug0"@)
}

/// The snapshot of a port read below `root`, or the first error in reading
/// order (an invalid or missing port first).
pub open spec fn spec_port(root: Seq<char>, raw: RawPort) -> Result<PortShape, ErrorView> {
    let name = raw.name@;
    if !spec_is_port_name(name) || !raw.exists {
        Err(ErrorView::InvalidPort(name))
    } else {
        match text_view(raw.data_role) {
            Err(e) => Err(e),
            Ok(role) => match (match raw.partner {
                None => Ok(None),
                Some(rp) => match spec_partner(partner_path_of(root, name), rp) {
                    Ok(s) => Ok(Some(s)),
                    Err(e) => Err(e),
                },
            }) {
                Err(e) => Err(e),
                Ok(partner) => match (match raw.cable {
                    None => Ok(None),
                    Some(rc) => match spec_cable(cable_path_of(root, name), rc) {
                        Ok(s) => Ok(Some(s)),
                        Err(e) => Err(e),
                    },
                }) {
                    Err(e) => Err(e),
                    Ok(cable) => match raw.usb4 {
                        Err(e) => Err(e@),
                        Ok(_) => Ok(
                            PortShape {
                                data_role: match role {
                                    Some(t) => Some(spec_parse_role(trimmed(t))),
                                    None => None,
                                },
                                partner,
                                cable,
                            },
                        ),
                    },
                },
            },
        }
    }
}

pub open spec fn port_matches(p: PortSnapshot, root: Seq<char>, raw: RawPort, shape: PortShape) -> bool {
    &&& p.name@ == raw.name@
    &&& p.syspath@ == port_path_of(root, raw.name@)
    &&& p.data_role == shape.data_role
    &&& (p.partner is Some <==> shape.partner is Some)
    &&& (p.partner matches Some(pp) ==> (raw.partner matches Some(rp) && partner_matches(
        pp,
        partner_path_of(root, raw.name@),
        rp,
        shape.partner->Some_0,
    )))
    &&& (p.cable is Some <==> shape.cable is Some)
    &&& (p.cable matches Some(cc) ==> (raw.cable matches Some(rc) && cable_matches(
        cc,
        cable_path_of(root, raw.name@),
        rc,
        shape.cable->Some_0,
    )))
    &&& raw.usb4 matches Ok(u) && p.usb4_link == u.0 && p.supports_usb4 == u.1
    &&& p.active_mode == spec_active_mode(p.partner)
}

impl Sysfs {
    /// The directory of port `name`.
    pub fn port_path(&self, name: &str) -> (p: String)
        ensures
            p@ == port_path_of(self.spec_root(), name@),
    {
        join_path(self.root.as_str(), name)
    }

    /// The partner directory of port `name`.
    pub fn partner_path(&self, name: &str) -> (p: String)
        ensures
            p@ == partner_path_of(self.spec_root(), name@),
    {
        join_path(self.root.as_str(), concat(name, "-partner").as_str())
    }

    /// The cable directory of port `name`.
    pub fn cable_path(&self, name: &str) -> (p: String)
        ensures
            p@ == cable_path_of(self.spec_root(), name@),
    {
        join_path(self.root.as_str(), concat(name, "-cable").as_str())
    }

    /// The directory of the first plug of the cable of port `name`.
    pub fn plug_path(&self, name: &str) -> (p: String)
        ensures
            p@ == plug_path_of(self.spec_root(), name@),
    {
        join_path(self.root.as_str(), concat(name, "-plug0").as_str())
    }

    /// The snapshot of a port from what was read of it: names that are not
    /// port names, and ports that do not exist, are invalid; otherwise the
    /// first error in reading order, or the snapshot.
    pub fn port(&self, raw: &RawPort) -> (r: Result<PortSnapshot, Error>)
        ensures
            match r {
                Ok(p) => spec_port(self.spec_root(), *raw) matches Ok(shape) && port_matches(
                    p,
                    self.spec_root(),
                    *raw,
                    shape,
                ),
                Err(e) => spec_port(self.spec_root(), *raw) == Err::<PortShape, ErrorView>(e@),
            },
    {
        if !is_port_name(raw.name.as_str()) || !raw.exists {
            return Err(Error::InvalidPort(raw.name.clone()));
        }
        let syspath = self.port_path(raw.name.as_str());
        let data_role = match read_text_trimmed(&raw.data_role) {
            Err(e) => return Err(e),
            Ok(Some(t)) => Some(parse_role(t.as_str())),
            Ok(None) => None,
        };
        let partner = match &raw.partner {
            None => None,
            Some(rp) => match read_partner(self.partner_path(raw.name.as_str()), rp) {
                Ok(p) => Some(p),
                Err(e) => return Err(e),
            },
        };
        let cable = match &raw.cable {
            None => None,
            Some(rc) => match read_cable(self.cable_path(raw.name.as_str()), rc) {
                Ok(c) => Some(c),
                Err(e) => return Err(e),
            },
        };
        let (usb4_link, supports_usb4) = match &raw.usb4 {
            Err(e) => return Err(e.duplicate()),
            Ok((link, supports)) => (
                match link {
                    Some(l) => Some(l.duplicate()),
                    None => None,
                },
                *supports,
            ),
        };
        let active = match &partner {
            Some(p) => active_mode(Some(p)),
            None => active_mode(None),
        };
        Ok(
            PortSnapshot {
                syspath,
                name: raw.name.clone(),
                data_role,
                supports_usb4,
                partner,
                cable,
                active_mode: active,
                usb4_link,
            },
        )
    }
}

// ---------------------------------------------------------------- listings

/// The order key of a port name: its number, or `u32::MAX` when it has none.
pub open spec fn name_key(n: Seq<char>) -> nat {
    match crate::parse::spec_port_number(n) {
        Some(v) => v,
        None => 0xffff_ffff,
    }
}

/// The port names among `v`, in order.
pub open spec fn port_names_only(v: Seq<Seq<char>>) -> Seq<Seq<char>>
    decreases v.len(),
{
    if v.len() == 0 {
        seq![]
    } else if spec_is_port_name(v.last()) {
        port_names_only(v.drop_last()).push(v.last())
    } else {
        port_names_only(v.drop_last())
    }
}

pub open spec fn sorted_by_number(v: Seq<Seq<char>>) -> bool {
    forall|a: int, b: int| 0 <= a < b < v.len() ==> name_key(v[a]) <= name_key(v[b])
}

/// `x` inserted into `s` after every leading name whose number is not
/// larger than its own.
pub open spec fn insert_by_number(s: Seq<Seq<char>>, x: Seq<char>) -> Seq<Seq<char>>
    decreases s.len(),
{
    if s.len() == 0 {
        seq![x]
    } else if name_key(s[0]) <= name_key(x) {
        seq![s[0]] + insert_by_number(s.drop_first(), x)
    } else {
        seq![x] + s
    }
}

/// `s` sorted by port number, names with equal numbers keeping their order
/// (a stable sort).
pub open spec fn stable_by_number(s: Seq<Seq<char>>) -> Seq<Seq<char>>
    decreases s.len(),
{
    if s.len() == 0 {
        seq![]
    } else {
        insert_by_number(stable_by_number(s.drop_last()), s.last())
    }
}

proof fn lemma_insert_by_number_at(s: Seq<Seq<char>>, x: Seq<char>, j: int)
    requires
        0 <= j <= s.len(),
        forall|a: int| 0 <= a < j ==> name_key(#[trigger] s[a]) <= name_key(x),
        j == s.len() || name_key(s[j]) > name_key(x),
    ensures
        insert_by_number(s, x) == s.insert(j, x),
    decreases j,
{
    if j == 0 {
        if s.len() > 0 {
            assert(seq![x] + s =~= s.insert(0, x));
        } else {
            assert(seq![x] =~= s.insert(0, x));
        }
    } else {
        let t = s.drop_first();
        assert forall|a: int| 0 <= a < j - 1 implies name_key(#[trigger] t[a]) <= name_key(x) by {
            assert(t[a] == s[a + 1]);
        }
        if j - 1 < t.len() {
            assert(t[j - 1] == s[j]);
        }
        lemma_insert_by_number_at(t, x, j - 1);
        assert(seq![s[0]] + t.insert(j - 1, x) =~= s.insert(j, x));
    }
}

/// The port names among the entries of the class directory, ordered by
/// port number (names whose number does not fit come last); names with equal
/// numbers keep their order.
pub fn order_port_names(entries: &Vec<String>) -> (names: Vec<String>)
    ensures
        crate::paths::views(names@) == stable_by_number(port_names_only(crate::paths::views(entries@))),
        crate::paths::views(names@).to_multiset() == port_names_only(
            crate::paths::views(entries@),
        ).to_multiset(),
        sorted_by_number(crate::paths::views(names@)),
{
    broadcast use vstd::seq_lib::group_to_multiset_ensures;

    let ghost all = crate::paths::views(entries@);
    let mut out: Vec<String> = Vec::new();
    let mut keys: Vec<u32> = Vec::new();
    let mut i: usize = 0;
    assert(all.take(0) =~= Seq::<Seq<char>>::empty());
    assert(crate::paths::views(out@) =~= Seq::<Seq<char>>::empty());
    while i < entries.len()
        invariant
            all == crate::paths::views(entries@),
            i <= entries@.len(),
            keys@.len() == out@.len(),
            forall|j: int| 0 <= j < out@.len() ==> keys@[j] as nat == #[trigger] name_key(out@[j]@),
            crate::paths::views(out@).to_multiset() == port_names_only(all.take(i as int)).to_multiset(),
            sorted_by_number(crate::paths::views(out@)),
            crate::paths::views(out@) == stable_by_number(port_names_only(all.take(i as int))),
        decreases entries@.len() - i,
    {
        proof {
            assert(all.take(i + 1).drop_last() =~= all.take(i as int));
            assert(all.take(i + 1).last() == entries@[i as int]@);
        }
        let name = &entries[i];
        if is_port_name(name.as_str()) {
            let key = match crate::parse::port_number(name.as_str()) {
                Some(v) => v,
                None => 0xffff_ffff,
            };
            let mut j: usize = 0;
            while j < keys.len() && keys[j] <= key
                invariant
                    j <= keys@.len(),
                    forall|a: int| 0 <= a < j ==> keys@[a] <= key,
                decreases keys@.len() - j,
            {
                j = j + 1;
            }
            let ghost before = crate::paths::views(out@);
            let ghost before_out = out@;
            let ghost before_keys = keys@;
            out.insert(j, name.clone());
            keys.insert(j, key);
            proof {
                assert(crate::paths::views(out@) =~= before.insert(j as int, name@));
                assert forall|a: int| 0 <= a < out@.len() implies keys@[a] as nat == #[trigger] name_key(
                    out@[a]@,
                ) by {
                    if a < j {
                        assert(out@[a] == before_out[a]);
                    } else if a > j {
                        assert(out@[a] == before_out[a - 1]);
                    }
                }
                let prev = port_names_only(all.take(i as int));
                assert(port_names_only(all.take(i + 1)) == prev.push(name@));
                assert forall|a: int| 0 <= a < j implies name_key(#[trigger] before[a]) <= name_key(name@) by {
                    assert(before[a] == before_out[a]@);
                }
                if j < before.len() {
                    assert(before[j as int] == before_out[j as int]@);
                }
                lemma_insert_by_number_at(before, name@, j as int);
                assert(prev.push(name@).drop_last() =~= prev);
                vstd::seq_lib::to_multiset_insert(before, j as int, name@);
                vstd::seq_lib::to_multiset_build(prev, name@);
                let v = crate::paths::views(out@);
                assert forall|a: int, b: int| 0 <= a < b < v.len() implies name_key(v[a]) <= name_key(
                    v[b],
                ) by {
                    assert(v[a] == out@[a]@);
                    assert(v[b] == out@[b]@);
                    assert(keys@[a] as nat == name_key(out@[a]@));
                    assert(keys@[b] as nat == name_key(out@[b]@));
                    if j < before_keys.len() && b > j {
                        assert(before_keys[j as int] > key);
                        assert(name_key(before[j as int]) <= name_key(before[b - 1]) || b - 1 == j);
                    }
                }
            }
        } else {
            assert(port_names_only(all.take(i + 1)) == port_names_only(all.take(i as int)));
        }
        i = i + 1;
    }
    assert(all.take(entries@.len() as int) =~= all);
    out
}

/// The snapshots of several ports, or the first error.
pub open spec fn spec_ports(root: Seq<char>, raws: Seq<RawPort>) -> Result<Seq<PortShape>, ErrorView>
    decreases raws.len(),
{
    if raws.len() == 0 {
        Ok(seq![])
    } else {
        match spec_port(root, raws[0]) {
            Err(e) => Err(e),
            Ok(p) => match spec_ports(root, raws.drop_first()) {
                Err(e) => Err(e),
                Ok(rest) => Ok(seq![p] + rest),
            },
        }
    }
}

proof fn lemma_ports_split(root: Seq<char>, raws: Seq<RawPort>, i: int)
    requires
        0 <= i < raws.len(),
    ensures
        spec_ports(root, raws.skip(i)) == match spec_port(root, raws[i]) {
            Err(e) => Err(e),
            Ok(p) => match spec_ports(root, raws.skip(i + 1)) {
                Err(e) => Err(e),
                Ok(rest) => Ok(seq![p] + rest),
            },
        },
{
    assert(raws.skip(i).drop_first() =~= raws.skip(i + 1));
}

impl Sysfs {
    /// The snapshots of the ports read, in order; the first error aborts.
    pub fn ports(&self, raws: &Vec<RawPort>) -> (r: Result<Vec<PortSnapshot>, Error>)
        ensures
            match r {
                Ok(ports) => spec_ports(self.spec_root(), raws@) matches Ok(shapes) && ports@.len()
                    == raws@.len() && shapes.len() == raws@.len() && forall|i: int|
                    0 <= i < ports@.len() ==> port_matches(
                        #[trigger] ports@[i],
                        self.spec_root(),
                        raws@[i],
                        shapes[i],
                    ),
                Err(e) => spec_ports(self.spec_root(), raws@) == Err::<Seq<PortShape>, ErrorView>(e@),
            },
    {
        let ghost all = raws@;
        let ghost root = self.spec_root();
        let ghost mut done: Seq<PortShape> = seq![];
        let mut out: Vec<PortSnapshot> = Vec::new();
        let n = raws.len();
        let mut k: usize = 0;
        assert(all.skip(0) =~= all);
        assert(done + Seq::<PortShape>::empty() =~= done);
        while k < n
            invariant
                all == raws@,
                n == all.len(),
                k <= n,
                out@.len() == k,
                done.len() == k,
                root == self.spec_root(),
                forall|i: int| 0 <= i < k ==> port_matches(#[trigger] out@[i], root, all[i], done[i]),
                spec_ports(root, all) == match spec_ports(root, all.skip(k as int)) {
                    Err(e) => Err(e),
                    Ok(tail) => Ok(done + tail),
                },
            decreases n - k,
        {
            proof {
                lemma_ports_split(root, all, k as int);
            }
            match self.port(&raws[k]) {
                Err(e) => return Err(e),
                Ok(p) => {
                    proof {
                        let v = spec_port(root, all[k as int])->Ok_0;
                        match spec_ports(root, all.skip(k + 1)) {
                            Err(e) => {},
                            Ok(tail) => {
                                assert(done + (seq![v] + tail) =~= done.push(v) + tail);
                            },
                        }
                        done = done.push(v);
                    }
                    out.push(p);
                    k = k + 1;
                },
            }
        }
        proof {
            assert(all.skip(n as int) =~= Seq::<RawPort>::empty());
            assert(done + Seq::<PortShape>::empty() =~= done);
        }
        Ok(out)
    }
}

// ---------------------------------------------------------------- USB4 links

/// A directory entry that links a Type-C port to a USB4 port.
pub open spec fn spec_is_usb4_port_entry(name: Seq<char>) -> bool {
    name.len() >= 9 && name.take(9) == "usb4_port"@
}

pub fn is_usb4_port_entry(name: &str) -> (yes: bool)
    ensures
        yes == spec_is_usb4_port_entry(name@),
{
    let n = name.unicode_len();
    if n < 9 {
        return false;
    }
    let head = crate::text::substring(name, 0, 9);
    head == "usb4_port".to_owned()
}

/// A USB4 domain directory name (`domain` and decimal digits).
pub open spec fn spec_is_domain_name(s: Seq<char>) -> bool {
    &&& s.len() > 6
    &&& s.take(6) == "domain"@
    &&& forall|i: int| 6 <= i < s.len() ==> is_digit(#[trigger] s[i])
}

fn is_domain_name(s: &str) -> (yes: bool)
    ensures
        yes == spec_is_domain_name(s@),
{
    let chars = crate::text::chars_of(s);
    if chars.len() <= 6 {
        return false;
    }
    let head = crate::text::substring(s, 0, 6);
    if !(head == "domain".to_owned()) {
        return false;
    }
    let mut i: usize = 6;
    while i < chars.len()
        invariant
            chars@ == s@,
            6 <= i <= chars@.len(),
            forall|j: int| 6 <= j < i ==> is_digit(#[trigger] chars@[j]),
        decreases chars@.len() - i,
    {
        if !('0' <= chars[i] && chars[i] <= '9') {
            return false;
        }
        i = i + 1;
    }
    true
}

/// The nearest ancestor of `path` (the path itself included) whose final
/// component is a USB4 domain, as a prefix of `path`.
pub open spec fn domain_ancestor(path: Seq<char>) -> Option<Seq<char>>
    decreases path.len(),
{
    if path.len() == 0 {
        None
    } else {
        let k = crate::paths::last_slash(path);
        let tail = path.subrange(k + 1, path.len() as int);
        if spec_is_domain_name(tail) {
            Some(path)
        } else if k < 0 {
            None
        } else {
            proof {
                crate::paths::lemma_last_slash_bounds(path);
            }
            domain_ancestor(path.subrange(0, k))
        }
    }
}

/// The USB4 domain above the canonical path of a USB4 port.
pub fn usb4_domain_of(target: &str) -> (d: Option<String>)
    ensures
        match d {
            Some(x) => domain_ancestor(target@) == Some(x@),
            None => domain_ancestor(target@) is None,
        },
{
    let chars = crate::text::chars_of(target);
    let mut end: usize = chars.len();
    assert(target@.subrange(0, end as int) =~= target@);
    loop
        invariant
            chars@ == target@,
            end <= chars@.len(),
            domain_ancestor(target@) == domain_ancestor(target@.subrange(0, end as int)),
        decreases end,
    {
        let ghost s = target@.subrange(0, end as int);
        if end == 0 {
            return None;
        }
        let mut k: usize = end;
        let mut found = false;
        while k > 0 && !found
            invariant
                k <= end <= chars@.len(),
                chars@ == target@,
                found ==> k < end && chars@[k as int] == '/',
                forall|j: int| (if found { k + 1 } else { k as int }) <= j < end ==> chars@[j] != '/',
            decreases k + (if found { 0int } else { 1int }),
        {
            if chars[k - 1] == '/' {
                k = k - 1;
                found = true;
            } else {
                k = k - 1;
            }
        }
        let ghost kk: int = if found { k as int } else { -1 };
        proof {
            crate::paths::lemma_last_slash_unique(s, kk);
        }
        let start: usize = if found { k + 1 } else { 0 };
        let tail = crate::text::substring(target, start, end);
        assert(s.subrange(kk + 1, s.len() as int) =~= tail@);
        if is_domain_name(tail.as_str()) {
            return Some(crate::text::substring(target, 0, end));
        }
        if !found {
            return None;
        }
        assert(s.subrange(0, kk) =~= target@.subrange(0, k as int));
        end = k;
    }
}

/// Fields of a `physical_location` directory, in the order they are compared.
pub open spec fn location_fields() -> Seq<Seq<char>> {
    seq!["panel"@, "horizontal_position"@, "vertical_position"@, "dock"@, "lid"@]
}

pub open spec fn pairs_view(v: Seq<(String, String)>) -> Seq<(Seq<char>, Seq<char>)> {
    v.map_values(|p: (String, String)| (p.0@, p.1@))
}

pub open spec fn texts_view(v: Seq<ReadText>) -> Seq<Result<Option<Seq<char>>, ErrorView>> {
    v.map_values(|r: ReadText| text_view(r))
}

/// The fields found among the first `n` reads, trimmed and named, or the
/// first read that failed.
pub open spec fn location_scan(texts: Seq<Result<Option<Seq<char>>, ErrorView>>, n: nat) -> Result<Seq<(Seq<char>, Seq<char>)>, ErrorView>
    decreases n,
{
    if n == 0 {
        Ok(seq![])
    } else {
        match location_scan(texts, (n - 1) as nat) {
            Err(e) => Err(e),
            Ok(acc) => match texts[n - 1] {
                Err(e) => Err(e),
                Ok(None) => Ok(acc),
                Ok(Some(t)) => Ok(acc.push((location_fields()[n - 1], trimmed(t)))),
            },
        }
    }
}

proof fn lemma_scan_error_persists(texts: Seq<Result<Option<Seq<char>>, ErrorView>>, k: nat, m: nat, e: ErrorView)
    requires
        k <= m,
        location_scan(texts, k) == Err::<Seq<(Seq<char>, Seq<char>)>, ErrorView>(e),
    ensures
        location_scan(texts, m) == Err::<Seq<(Seq<char>, Seq<char>)>, ErrorView>(e),
    decreases m - k,
{
    if k < m {
        lemma_scan_error_persists(texts, k, (m - 1) as nat, e);
    }
}

/// How many reads of a `physical_location` directory take part: one per field.
pub open spec fn location_reads(texts: Seq<Result<Option<Seq<char>>, ErrorView>>) -> nat {
    if texts.len() < 5 { texts.len() } else { 5 }
}

/// A physical location from the reads of its fields (one per entry of
/// `location_fields`, in that order): the fields that exist, when there are
/// at least three of them.
pub open spec fn spec_physical_location(texts: Seq<Result<Option<Seq<char>>, ErrorView>>) -> Result<Option<Seq<(Seq<char>, Seq<char>)>>, ErrorView> {
    match location_scan(texts, location_reads(texts)) {
        Err(e) => Err(e),
        Ok(found) => Ok(if found.len() >= 3 { Some(found) } else { None }),
    }
}

/// The names of the fields of a `physical_location` directory.
pub fn location_field_names() -> (names: Vec<String>)
    ensures
        names@.len() == 5,
        crate::paths::views(names@) == location_fields(),
{
    let names = vec![
        "panel".to_owned(),
        "horizontal_position".to_owned(),
        "vertical_position".to_owned(),
        "dock".to_owned(),
        "lid".to_owned(),
    ];
    assert(crate::paths::views(names@) =~= location_fields());
    names
}

/// The physical location of a device from the reads of its
/// `physical_location` fields (see `location_field_names`).
pub fn physical_location(texts: &Vec<ReadText>) -> (r: Result<Option<Vec<(String, String)>>, Error>)
    ensures
        match r {
            Ok(Some(v)) => spec_physical_location(texts_view(texts@)) == Ok::<Option<Seq<(Seq<char>, Seq<char>)>>, ErrorView>(Some(pairs_view(v@))),
            Ok(None) => spec_physical_location(texts_view(texts@)) == Ok::<Option<Seq<(Seq<char>, Seq<char>)>>, ErrorView>(None),
            Err(e) => spec_physical_location(texts_view(texts@)) == Err::<Option<Seq<(Seq<char>, Seq<char>)>>, ErrorView>(e@),
        },
{
    let ghost tv = texts_view(texts@);
    let names = location_field_names();
    let n: usize = if texts.len() < 5 { texts.len() } else { 5 };
    let mut found: Vec<(String, String)> = Vec::new();
    let mut i: usize = 0;
    assert(pairs_view(found@) =~= Seq::<(Seq<char>, Seq<char>)>::empty());
    while i < n
        invariant
            tv == texts_view(texts@),
            names@.len() == 5,
            n == location_reads(tv),
            n <= texts@.len(),
            n <= 5,
            i <= n,
            crate::paths::views(names@) == location_fields(),
            location_scan(tv, i as nat) == Ok::<Seq<(Seq<char>, Seq<char>)>, ErrorView>(pairs_view(found@)),
        decreases n - i,
    {
        assert(tv[i as int] == text_view(texts@[i as int]));
        match &texts[i] {
            Err(e) => {
                proof {
                    assert(location_scan(tv, (i + 1) as nat) == Err::<Seq<(Seq<char>, Seq<char>)>, ErrorView>(e@));
                    lemma_scan_error_persists(tv, (i + 1) as nat, n as nat, e@);
                }
                return Err(e.duplicate());
            },
            Ok(None) => {},
            Ok(Some(t)) => {
                let name = names[i].clone();
                assert(name@ == location_fields()[i as int]);
                found.push((name, trim(t.as_str())));
                assert(pairs_view(found@) =~= location_scan(tv, i as nat)->Ok_0.push((location_fields()[i as int], trimmed(t@))));
            },
        }
        i = i + 1;
    }
    if found.len() >= 3 {
        Ok(Some(found))
    } else {
        Ok(None)
    }
}

/// Whether two physical locations are the same: the same fields, in the
/// same order, with the same values.
pub fn same_location(a: &Vec<(String, String)>, b: &Vec<(String, String)>) -> (same: bool)
    ensures
        same == (pairs_view(a@) == pairs_view(b@)),
{
    if a.len() != b.len() {
        assert(pairs_view(a@).len() != pairs_view(b@).len());
        return false;
    }
    let mut i: usize = 0;
    while i < a.len()
        invariant
            a@.len() == b@.len(),
            i <= a@.len(),
            forall|k: int| 0 <= k < i ==> pairs_view(a@)[k] == pairs_view(b@)[k],
        decreases a@.len() - i,
    {
        if !(a[i].0 == b[i].0) || !(a[i].1 == b[i].1) {
            assert(pairs_view(a@)[i as int] != pairs_view(b@)[i as int]);
            return false;
        }
        i = i + 1;
    }
    assert(pairs_view(a@) =~= pairs_view(b@));
    true
}

pub open spec fn location_read_view(r: Result<Option<Vec<(String, String)>>, Error>) -> Result<Option<Seq<(Seq<char>, Seq<char>)>>, ErrorView> {
    match r {
        Ok(Some(v)) => Ok(Some(pairs_view(v@))),
        Ok(None) => Ok(None),
        Err(e) => Err(e@),
    }
}

/// The first candidate, from index `i` on, whose location is `target`; a
/// failed read met before it is the result instead.
pub open spec fn location_match_from(target: Seq<(Seq<char>, Seq<char>)>, cands: Seq<Result<Option<Seq<(Seq<char>, Seq<char>)>>, ErrorView>>, i: int) -> Result<Option<int>, ErrorView>
    decreases cands.len() - i,
{
    if i < 0 || i >= cands.len() {
        Ok(None)
    } else {
        match cands[i] {
            Err(e) => Err(e),
            Ok(Some(l)) => if l == target { Ok(Some(i)) } else { location_match_from(target, cands, i + 1) },
            Ok(None) => location_match_from(target, cands, i + 1),
        }
    }
}

/// Among the USB4 ports of the host routers, in the order they were found,
/// the one at the same physical location as the Type-C port: its index, or
/// `None`. A location that could not be read before the match is an error.
pub fn matching_location(target: &Vec<(String, String)>, candidates: &Vec<Result<Option<Vec<(String, String)>>, Error>>) -> (r: Result<Option<usize>, Error>)
    ensures
        match r {
            Ok(Some(i)) => location_match_from(pairs_view(target@), candidates@.map_values(|c: Result<Option<Vec<(String, String)>>, Error>| location_read_view(c)), 0) == Ok::<Option<int>, ErrorView>(Some(i as int)),
            Ok(None) => location_match_from(pairs_view(target@), candidates@.map_values(|c: Result<Option<Vec<(String, String)>>, Error>| location_read_view(c)), 0) == Ok::<Option<int>, ErrorView>(None),
            Err(e) => location_match_from(pairs_view(target@), candidates@.map_values(|c: Result<Option<Vec<(String, String)>>, Error>| location_read_view(c)), 0) == Err::<Option<int>, ErrorView>(e@),
        },
{
    let ghost cv = candidates@.map_values(|c: Result<Option<Vec<(String, String)>>, Error>| location_read_view(c));
    let ghost t = pairs_view(target@);
    let mut i: usize = 0;
    while i < candidates.len()
        invariant
            cv == candidates@.map_values(|c: Result<Option<Vec<(String, String)>>, Error>| location_read_view(c)),
            t == pairs_view(target@),
            i <= candidates@.len(),
            location_match_from(t, cv, 0) == location_match_from(t, cv, i as int),
        decreases candidates@.len() - i,
    {
        assert(cv[i as int] == location_read_view(candidates@[i as int]));
        match &candidates[i] {
            Err(e) => {
                return Err(e.duplicate());
            },
            Ok(Some(l)) => {
                if same_location(l, target) {
                    return Ok(Some(i));
                }
            },
            Ok(None) => {},
        }
        i = i + 1;
    }
    Ok(None)
}

/// The first entry of a port directory that links it to a USB4 port.
pub fn first_usb4_entry(entries: &Vec<String>) -> (r: Option<usize>)
    ensures
        match r {
            Some(i) => i < entries@.len() && spec_is_usb4_port_entry(entries@[i as int]@)
                && forall|k: int| 0 <= k < i ==> !spec_is_usb4_port_entry(#[trigger] entries@[k]@),
            None => forall|k: int| 0 <= k < entries@.len() ==> !spec_is_usb4_port_entry(#[trigger] entries@[k]@),
        },
{
    let mut i: usize = 0;
    while i < entries.len()
        invariant
            i <= entries@.len(),
            forall|k: int| 0 <= k < i ==> !spec_is_usb4_port_entry(#[trigger] entries@[k]@),
        decreases entries@.len() - i,
    {
        if is_usb4_port_entry(entries[i].as_str()) {
            return Some(i);
        }
        i = i + 1;
    }
    None
}

// ---------------------------------------------------------------- alternate modes

/// The entries of `s` that begin with `prefix`, in their order.
pub open spec fn entries_with_prefix(s: Seq<Seq<char>>, prefix: Seq<char>) -> Seq<Seq<char>>
    decreases s.len(),
{
    if s.len() == 0 {
        seq![]
    } else {
        let rest = entries_with_prefix(s.drop_last(), prefix);
        if crate::text::has_prefix(s.last(), prefix) {
            rest.push(s.last())
        } else {
            rest
        }
    }
}

pub open spec fn joined_all(dir: Seq<char>, names: Seq<Seq<char>>) -> Seq<Seq<char>> {
    names.map_values(|n: Seq<char>| spec_join(dir, n))
}

/// The alternate-mode directories of the device `owner_name` (a partner or
/// a plug, directly below the root): the entries named `owner_name.*`
/// inside the device directory and beside it in the root, in path order
/// and each once. The paths inside the device come first, since the device
/// name is a proper prefix of every such entry name.
pub open spec fn spec_alt_mode_paths(root: Seq<char>, owner_name: Seq<char>, root_entries: Seq<Seq<char>>, owner_entries: Seq<Seq<char>>) -> Seq<Seq<char>> {
    let prefix = owner_name + "."@;
    joined_all(spec_join(root, owner_name), crate::order::sorted_unique(entries_with_prefix(owner_entries, prefix)))
        + joined_all(root, crate::order::sorted_unique(entries_with_prefix(root_entries, prefix)))
}

fn select_prefixed(entries: &Vec<String>, prefix: &str) -> (out: Vec<String>)
    ensures
        crate::paths::views(out@) == entries_with_prefix(crate::paths::views(entries@), prefix@),
{
    let ghost all = crate::paths::views(entries@);
    let mut out: Vec<String> = Vec::new();
    let mut i: usize = 0;
    assert(crate::paths::views(out@) =~= entries_with_prefix(all.take(0), prefix@));
    while i < entries.len()
        invariant
            all == crate::paths::views(entries@),
            i <= entries@.len(),
            crate::paths::views(out@) == entries_with_prefix(all.take(i as int), prefix@),
        decreases entries@.len() - i,
    {
        assert(all.take(i + 1).drop_last() =~= all.take(i as int));
        assert(all.take(i + 1).last() == entries@[i as int]@);
        if crate::text::starts_with(entries[i].as_str(), prefix) {
            out.push(entries[i].clone());
            assert(crate::paths::views(out@) =~= entries_with_prefix(all.take(i as int), prefix@).push(entries@[i as int]@));
        }
        i = i + 1;
    }
    assert(all.take(entries@.len() as int) =~= all);
    out
}

fn join_all(dir: &str, names: &Vec<String>) -> (out: Vec<String>)
    ensures
        crate::paths::views(out@) == joined_all(dir@, crate::paths::views(names@)),
{
    let mut out: Vec<String> = Vec::new();
    let mut i: usize = 0;
    while i < names.len()
        invariant
            i <= names@.len(),
            crate::paths::views(out@) == joined_all(dir@, crate::paths::views(names@).take(i as int)),
        decreases names@.len() - i,
    {
        let ghost before = crate::paths::views(out@);
        let p = join_path(dir, names[i].as_str());
        out.push(p);
        proof {
            let nv = crate::paths::views(names@);
            assert(nv[i as int] == names@[i as int]@);
            assert(nv.take(i + 1) =~= nv.take(i as int).push(nv[i as int]));
            assert(crate::paths::views(out@) =~= before.push(p@));
            assert(joined_all(dir@, nv.take(i + 1)) =~= joined_all(dir@, nv.take(i as int)).push(spec_join(dir@, nv[i as int])));
        }
        i = i + 1;
    }
    assert(crate::paths::views(names@).take(names@.len() as int) =~= crate::paths::views(names@));
    out
}

impl Sysfs {
    /// The alternate-mode directories of the device `owner_name` below the
    /// root, given the entry names of the root and of the device directory
    /// (see `spec_alt_mode_paths`).
    pub fn alt_mode_paths(&self, owner_name: &str, root_entries: &Vec<String>, owner_entries: &Vec<String>) -> (paths: Vec<String>)
        ensures
            crate::paths::views(paths@) == spec_alt_mode_paths(self.spec_root(), owner_name@, crate::paths::views(root_entries@), crate::paths::views(owner_entries@)),
    {
        let prefix = concat(owner_name, ".");
        let owner = join_path(self.root.as_str(), owner_name);
        let inside = crate::order::sort_unique(select_prefixed(owner_entries, prefix.as_str()));
        let beside = crate::order::sort_unique(select_prefixed(root_entries, prefix.as_str()));
        let mut paths = join_all(owner.as_str(), &inside);
        let mut rest = join_all(self.root.as_str(), &beside);
        paths.append(&mut rest);
        assert(crate::paths::views(paths@) =~= spec_alt_mode_paths(self.spec_root(), owner_name@, crate::paths::views(root_entries@), crate::paths::views(owner_entries@)));
        paths
    }
}

// ---------------------------------------------------------------- routers

pub open spec fn is_hex_digit(c: char) -> bool {
    ('0' <= c && c <= '9') || ('a' <= c && c <= 'f')
}

/// The name of a Thunderbolt/USB4 router that is not a host router:
/// `<domain>-<route>`, the domain in decimal, the route a nonzero hex
/// string (a host router's route is `0`).
pub open spec fn spec_is_downstream_router_name(s: Seq<char>) -> bool {
    exists|k: int| #![trigger s[k]]
        0 < k < s.len() - 1 && s[k] == '-'
        && (forall|i: int| 0 <= i < k ==> is_digit(#[trigger] s[i]))
        && (forall|i: int| k < i < s.len() ==> is_hex_digit(#[trigger] s[i]))
        && (exists|i: int| k < i < s.len() && #[trigger] s[i] != '0')
}

pub fn is_downstream_router_name(name: &str) -> (yes: bool)
    ensures
        yes == spec_is_downstream_router_name(name@),
{
    let c = crate::text::chars_of(name);
    let n = c.len();
    let mut k: usize = 0;
    while k < n && '0' <= c[k] && c[k] <= '9'
        invariant
            c@ == name@,
            n == c@.len(),
            k <= n,
            forall|i: int| 0 <= i < k ==> is_digit(#[trigger] c@[i]),
        decreases n - k,
    {
        k = k + 1;
    }
    if k == 0 || k >= n || c[k] != '-' || k + 1 >= n {
        proof {
            if spec_is_downstream_router_name(name@) {
                let w = choose|w: int| #![trigger name@[w]]
                    0 < w < name@.len() - 1 && name@[w] == '-'
                    && (forall|i: int| 0 <= i < w ==> is_digit(#[trigger] name@[i]))
                    && (forall|i: int| w < i < name@.len() ==> is_hex_digit(#[trigger] name@[i]))
                    && (exists|i: int| w < i < name@.len() && #[trigger] name@[i] != '0');
                if w < k {
                    assert(is_digit(c@[w]));
                } else if w > k {
                    assert(is_digit(name@[k as int]));
                    if k < n {
                        assert(!is_digit(c@[k as int]));
                    }
                }
            }
        }
        return false;
    }
    let mut i: usize = k + 1;
    let mut nonzero = false;
    while i < n
        invariant
            c@ == name@,
            n == c@.len(),
            0 < k,
            k + 1 <= i <= n,
            c@[k as int] == '-',
            forall|j: int| 0 <= j < k ==> is_digit(#[trigger] c@[j]),
            forall|j: int| k < j < i ==> is_hex_digit(#[trigger] c@[j]),
            nonzero == (exists|j: int| k < j < i && #[trigger] c@[j] != '0'),
        decreases n - i,
    {
        let d = c[i];
        if !(('0' <= d && d <= '9') || ('a' <= d && d <= 'f')) {
            proof {
                if spec_is_downstream_router_name(name@) {
                    let w = choose|w: int| #![trigger name@[w]]
                        0 < w < name@.len() - 1 && name@[w] == '-'
                        && (forall|j: int| 0 <= j < w ==> is_digit(#[trigger] name@[j]))
                        && (forall|j: int| w < j < name@.len() ==> is_hex_digit(#[trigger] name@[j]))
                        && (exists|j: int| w < j < name@.len() && #[trigger] name@[j] != '0');
                    if w < k {
                        assert(is_digit(c@[w]));
                    } else if w > k {
                        assert(is_digit(name@[k as int]));
                    }
                    assert(is_hex_digit(name@[i as int]));
                }
            }
            return false;
        }
        if d != '0' {
            nonzero = true;
        }
        i = i + 1;
    }
    proof {
        if nonzero {
            assert(name@[k as int] == '-');
            assert(spec_is_downstream_router_name(name@));
        } else if spec_is_downstream_router_name(name@) {
            let w = choose|w: int| #![trigger name@[w]]
                0 < w < name@.len() - 1 && name@[w] == '-'
                && (forall|j: int| 0 <= j < w ==> is_digit(#[trigger] name@[j]))
                && (forall|j: int| w < j < name@.len() ==> is_hex_digit(#[trigger] name@[j]))
                && (exists|j: int| w < j < name@.len() && #[trigger] name@[j] != '0');
            if w < k {
                assert(is_digit(c@[w]));
            } else if w > k {
                assert(is_digit(name@[k as int]));
            }
        }
    }
    nonzero
}

/// Only port names (`port` and decimal digits) are ever read as ports, so a
/// name cannot lead out of the sysfs root.
pub proof fn law_port_names_stay_in_root(root: Seq<char>, raw: RawPort)
    ensures
        spec_port(root, raw) is Ok ==> spec_is_port_name(raw.name@),
        spec_port(root, raw) is Ok ==> forall|i: int| 0 <= i < raw.name@.len() ==> #[trigger] raw.name@[i] != '/',
        !spec_is_port_name(raw.name@) ==> spec_port(root, raw) == Err::<PortShape, ErrorView>(ErrorView::InvalidPort(raw.name@)),
{
    if spec_port(root, raw) is Ok {
        assert forall|i: int| 0 <= i < raw.name@.len() implies #[trigger] raw.name@[i] != '/' by {
            if i >= 4 {
                assert(is_digit(raw.name@[i]));
            }
        }
    }
}

/// A USB4 port is associated with a Type-C port only through an equal
/// physical location, never through its name or number: the candidate
/// found has exactly the location of the Type-C port, and every candidate
/// before it was read and differs.
pub proof fn law_association_is_by_location(
    target: Seq<(Seq<char>, Seq<char>)>,
    cands: Seq<Result<Option<Seq<(Seq<char>, Seq<char>)>>, ErrorView>>,
    from: int,
    i: int,
)
    requires
        0 <= from,
        location_match_from(target, cands, from) == Ok::<Option<int>, ErrorView>(Some(i)),
    ensures
        from <= i < cands.len(),
        cands[i] == Ok::<Option<Seq<(Seq<char>, Seq<char>)>>, ErrorView>(Some(target)),
        forall|k: int| from <= k < i ==> (#[trigger] cands[k] matches Ok(l) && l != Some(target)),
    decreases cands.len() - from,
{
    if from < cands.len() {
        match cands[from] {
            Ok(Some(l)) => if l != target {
                law_association_is_by_location(target, cands, from + 1, i);
            },
            Ok(None) => law_association_is_by_location(target, cands, from + 1, i),
            Err(_) => {},
        }
    }
}

// ---------------------------------------------------------------- USB4 link choice

/// Where the USB4 port of a Type-C port was found.
#[derive(Clone, Copy, Debug, PartialEq, Eq, Structural)]
pub enum Usb4Source {
    /// The entry at this index of the port directory links to it directly.
    Direct(usize),
    /// The host-router USB4 port at this index of the candidates shares the
    /// port's physical location.
    Located(usize),
}

pub open spec fn candidates_view(c: Vec<Result<Option<Vec<(String, String)>>, Error>>) -> Seq<Result<Option<Seq<(Seq<char>, Seq<char>)>>, ErrorView>> {
    c@.map_values(|x: Result<Option<Vec<(String, String)>>, Error>| location_read_view(x))
}

/// The first directory entry that links to a USB4 port.
pub open spec fn first_usb4_index(entries: Seq<Seq<char>>) -> Option<int> {
    if exists|i: int| 0 <= i < entries.len() && spec_is_usb4_port_entry(#[trigger] entries[i]) {
        Some(choose|i: int| 0 <= i < entries.len() && spec_is_usb4_port_entry(#[trigger] entries[i])
            && forall|k: int| 0 <= k < i ==> !spec_is_usb4_port_entry(#[trigger] entries[k]))
    } else {
        None
    }
}

/// Which USB4 port belongs to a Type-C port, and whether it has one, from
/// the reads in the order they are made: the listing of the port directory
/// (a `usb4_port*` entry there is taken first); whether the Thunderbolt bus
/// directory exists; the physical location of the port; and the listing of
/// the host routers' USB4 ports with their locations. Reads after the one
/// that decides are not consulted.
pub open spec fn spec_choose_usb4(
    entries: Result<Seq<Seq<char>>, ErrorView>,
    bus_present: bool,
    location: Result<Option<Seq<(Seq<char>, Seq<char>)>>, ErrorView>,
    candidates: Result<Seq<Result<Option<Seq<(Seq<char>, Seq<char>)>>, ErrorView>>, ErrorView>,
) -> Result<(Option<Usb4Source>, bool), ErrorView> {
    match entries {
        Err(e) => Err(e),
        Ok(names) => match first_usb4_index(names) {
            Some(i) => Ok((Some(Usb4Source::Direct(i as usize)), true)),
            None => if !bus_present {
                Ok((None, false))
            } else {
                match location {
                    Err(e) => Err(e),
                    Ok(None) => Ok((None, false)),
                    Ok(Some(target)) => match candidates {
                        Err(e) => Err(e),
                        Ok(c) => match location_match_from(target, c, 0) {
                            Err(e) => Err(e),
                            Ok(Some(k)) => Ok((Some(Usb4Source::Located(k as usize)), true)),
                            Ok(None) => Ok((None, false)),
                        },
                    },
                }
            },
        },
    }
}

pub open spec fn names_result_view(r: Result<Vec<String>, Error>) -> Result<Seq<Seq<char>>, ErrorView> {
    match r {
        Ok(v) => Ok(crate::paths::views(v@)),
        Err(e) => Err(e@),
    }
}

pub open spec fn candidates_result_view(r: Result<Vec<Result<Option<Vec<(String, String)>>, Error>>, Error>) -> Result<Seq<Result<Option<Seq<(Seq<char>, Seq<char>)>>, ErrorView>>, ErrorView> {
    match r {
        Ok(c) => Ok(candidates_view(c)),
        Err(e) => Err(e@),
    }
}

/// Chooses the USB4 port of a Type-C port from the reads (see
/// `spec_choose_usb4`); the flag tells whether one was found.
pub fn choose_usb4_link(
    entries: &Result<Vec<String>, Error>,
    bus_present: bool,
    location: &Result<Option<Vec<(String, String)>>, Error>,
    candidates: &Result<Vec<Result<Option<Vec<(String, String)>>, Error>>, Error>,
) -> (r: Result<(Option<Usb4Source>, bool), Error>)
    ensures
        match r {
            Ok(c) => spec_choose_usb4(
                names_result_view(*entries),
                bus_present,
                location_read_view(*location),
                candidates_result_view(*candidates),
            ) == Ok::<(Option<Usb4Source>, bool), ErrorView>(c),
            Err(e) => spec_choose_usb4(
                names_result_view(*entries),
                bus_present,
                location_read_view(*location),
                candidates_result_view(*candidates),
            ) == Err::<(Option<Usb4Source>, bool), ErrorView>(e@),
        },
        r matches Ok(c) ==> (c.1 <==> c.0 is Some),
        r matches Ok(c) ==> (c.0 matches Some(Usb4Source::Direct(i)) ==> entries matches Ok(v) && i < v@.len()),
        r matches Ok(c) ==> (c.0 matches Some(Usb4Source::Located(i)) ==> candidates matches Ok(v) && i < v@.len()),
{
    let names = match entries {
        Err(e) => return Err(e.duplicate()),
        Ok(v) => v,
    };
    let ghost nv = crate::paths::views(names@);
    match first_usb4_entry(names) {
        Some(i) => {
            proof {
                assert(nv[i as int] == names@[i as int]@);
                assert forall|k: int| 0 <= k < i implies !spec_is_usb4_port_entry(#[trigger] nv[k]) by {
                    assert(nv[k] == names@[k]@);
                }
                let w = choose|w: int| 0 <= w < nv.len() && spec_is_usb4_port_entry(#[trigger] nv[w])
                    && forall|k: int| 0 <= k < w ==> !spec_is_usb4_port_entry(#[trigger] nv[k]);
                assert(w == i as int);
            }
            return Ok((Some(Usb4Source::Direct(i)), true));
        },
        None => {
            assert forall|k: int| 0 <= k < nv.len() implies !spec_is_usb4_port_entry(#[trigger] nv[k]) by {
                assert(nv[k] == names@[k]@);
            }
        },
    }
    if !bus_present {
        return Ok((None, false));
    }
    let target = match location {
        Err(e) => return Err(e.duplicate()),
        Ok(None) => return Ok((None, false)),
        Ok(Some(t)) => t,
    };
    let list = match candidates {
        Err(e) => return Err(e.duplicate()),
        Ok(c) => c,
    };
    match matching_location(target, list) {
        Err(e) => Err(e),
        Ok(Some(k)) => {
            proof {
                law_association_is_by_location(pairs_view(target@), candidates_view(*list), 0, k as int);
            }
            Ok((Some(Usb4Source::Located(k)), true))
        },
        Ok(None) => Ok((None, false)),
    }
}

/// A `usb4_port*` entry of the port directory is always preferred over a
/// match by physical location, and the physical-location fallback is tried
/// only when the Thunderbolt bus and the port's location exist; a link is
/// reported as found exactly when one was chosen.
pub proof fn law_direct_link_comes_first(
    entries: Result<Seq<Seq<char>>, ErrorView>,
    bus_present: bool,
    location: Result<Option<Seq<(Seq<char>, Seq<char>)>>, ErrorView>,
    candidates: Result<Seq<Result<Option<Seq<(Seq<char>, Seq<char>)>>, ErrorView>>, ErrorView>,
)
    ensures
        (entries matches Ok(names) && exists|i: int| 0 <= i < names.len() && spec_is_usb4_port_entry(#[trigger] names[i]))
            ==> spec_choose_usb4(entries, bus_present, location, candidates) matches Ok((Some(Usb4Source::Direct(_)), true)),
        spec_choose_usb4(entries, bus_present, location, candidates) matches Ok((Some(Usb4Source::Located(_)), _))
            ==> bus_present && location matches Ok(Some(_)),
        spec_choose_usb4(entries, bus_present, location, candidates) matches Ok(c) ==> (c.1 <==> c.0 is Some),
        (entries matches Ok(names) && !bus_present && first_usb4_index(names) is None)
            ==> spec_choose_usb4(entries, bus_present, location, candidates) == Ok::<(Option<Usb4Source>, bool), ErrorView>((None, false)),
{
}

/// The active mode of a snapshot names the mode that is entered: USB4 when
/// it is the partner's active USB mode; otherwise the first alternate mode
/// marked active, as DisplayPort for the DisplayPort SVID, Thunderbolt for
/// the Thunderbolt SVID and `Other` (with its SVID) for any other, each with
/// that mode's directory; no mode when none is marked active or there is no
/// partner.
pub proof fn law_active_mode_names_the_entered_mode(p: PartnerSnapshot, i: int)
    ensures
        spec_active_mode(None) == ActiveMode::Inactive,
        p.usb_modes.active == Some(UsbMode::Usb4) ==> spec_active_mode(Some(p)) == ActiveMode::Usb4,
        (p.usb_modes.active != Some(UsbMode::Usb4) && 0 <= i < p.alt_modes@.len() && p.alt_modes@[i].active
            && forall|k: int| 0 <= k < i ==> !(#[trigger] p.alt_modes@[k]).active) ==> {
            let m = p.alt_modes@[i];
            &&& m.svid == 0xff01u16 ==> spec_active_mode(Some(p)) == ActiveMode::DisplayPort { syspath: m.syspath }
            &&& m.svid == 0x8087u16 ==> spec_active_mode(Some(p)) == ActiveMode::Thunderbolt { syspath: m.syspath }
            &&& (m.svid != 0xff01u16 && m.svid != 0x8087u16) ==> spec_active_mode(Some(p))
                == ActiveMode::Other { svid: m.svid, syspath: m.syspath }
        },
        (p.usb_modes.active != Some(UsbMode::Usb4) && forall|k: int| 0 <= k < p.alt_modes@.len()
            ==> !(#[trigger] p.alt_modes@[k]).active) ==> spec_active_mode(Some(p)) == ActiveMode::Inactive,
{
    lemma_first_active_at(p.alt_modes@, i);
    lemma_first_active_none(p.alt_modes@);
}

proof fn lemma_first_active_at(modes: Seq<AltMode>, i: int)
    ensures
        (0 <= i < modes.len() && modes[i].active && forall|k: int| 0 <= k < i ==> !(#[trigger] modes[k]).active)
            ==> first_active(modes) == Some(modes[i]),
    decreases modes.len(),
{
    if 0 < i < modes.len() && modes[i].active && forall|k: int| 0 <= k < i ==> !(#[trigger] modes[k]).active {
        assert(!modes[0].active);
        let t = modes.drop_first();
        assert forall|k: int| 0 <= k < i - 1 implies !(#[trigger] t[k]).active by {
            assert(t[k] == modes[k + 1]);
        }
        lemma_first_active_at(t, i - 1);
    }
}

proof fn lemma_first_active_none(modes: Seq<AltMode>)
    ensures
        (forall|k: int| 0 <= k < modes.len() ==> !(#[trigger] modes[k]).active) ==> first_active(modes) is None,
    decreases modes.len(),
{
    if modes.len() > 0 && forall|k: int| 0 <= k < modes.len() ==> !(#[trigger] modes[k]).active {
        assert(!modes[0].active);
        let t = modes.drop_first();
        assert forall|k: int| 0 <= k < t.len() implies !(#[trigger] t[k]).active by {
            assert(t[k] == modes[k + 1]);
        }
        lemma_first_active_none(t);
    }
}

} // verus!
