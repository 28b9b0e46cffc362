//! Text of sysfs attributes: whitespace trimming and splitting, and integer
//! parsing with the rules of the standard library's `from_str_radix`.

use vstd::prelude::*;
use crate::text::chars_of;

verus! {

/// The Unicode `White_Space` property (`char::is_whitespace`).
pub open spec fn is_space(c: char) -> bool {
    ||| '\u{9}' <= c <= '\u{d}'
    ||| c == ' '
    ||| c == '\u{85}'
    ||| c == '\u{a0}'
    ||| c == '\u{1680}'
    ||| '\u{2000}' <= c <= '\u{200a}'
    ||| c == '\u{2028}'
    ||| c == '\u{2029}'
    ||| c == '\u{202f}'
    ||| c == '\u{205f}'
    ||| c == '\u{3000}'
}

pub fn space(c: char) -> (b: bool)
    ensures
        b == is_space(c),
{
    ('\u{9}' <= c && c <= '\u{d}') || c == ' ' || c == '\u{85}' || c == '\u{a0}' || c == '\u{1680}'
        || ('\u{2000}' <= c && c <= '\u{200a}') || c == '\u{2028}' || c == '\u{2029}' || c
        == '\u{202f}' || c == '\u{205f}' || c == '\u{3000}'
}

/// Number of leading whitespace characters.
pub open spec fn lead(s: Seq<char>) -> nat
    decreases s.len(),
{
    if s.len() == 0 || !is_space(s[0]) {
        0
    } else {
        1 + lead(s.drop_first())
    }
}

/// Number of trailing whitespace characters.
pub open spec fn trail(s: Seq<char>) -> nat
    decreases s.len(),
{
    if s.len() == 0 || !is_space(s.last()) {
        0
    } else {
        1 + trail(s.drop_last())
    }
}

/// Number of leading characters that are not whitespace.
pub open spec fn word_len(s: Seq<char>) -> nat
    decreases s.len(),
{
    if s.len() == 0 || is_space(s[0]) {
        0
    } else {
        1 + word_len(s.drop_first())
    }
}

pub proof fn lemma_lead_bound(s: Seq<char>)
    ensures
        lead(s) <= s.len(),
        forall|i: int| 0 <= i < lead(s) ==> is_space(s[i]),
        lead(s) < s.len() ==> !is_space(s[lead(s) as int]),
    decreases s.len(),
{
    if s.len() > 0 && is_space(s[0]) {
        lemma_lead_bound(s.drop_first());
        assert forall|i: int| 0 <= i < lead(s) implies is_space(s[i]) by {
            if i > 0 {
                assert(s[i] == s.drop_first()[i - 1]);
            }
        }
    }
}

pub proof fn lemma_trail_bound(s: Seq<char>)
    ensures
        trail(s) <= s.len(),
        forall|i: int| s.len() - trail(s) <= i < s.len() ==> is_space(s[i]),
        trail(s) < s.len() ==> !is_space(s[s.len() - trail(s) - 1]),
    decreases s.len(),
{
    if s.len() > 0 && is_space(s.last()) {
        lemma_trail_bound(s.drop_last());
        assert forall|i: int| s.len() - trail(s) <= i < s.len() implies is_space(s[i]) by {
            if i < s.len() - 1 {
                assert(s[i] == s.drop_last()[i]);
            }
        }
    }
}

pub proof fn lemma_word_len_bound(s: Seq<char>)
    ensures
        word_len(s) <= s.len(),
        forall|i: int| 0 <= i < word_len(s) ==> !is_space(s[i]),
        word_len(s) < s.len() ==> is_space(s[word_len(s) as int]),
        s.len() > 0 && !is_space(s[0]) ==> word_len(s) > 0,
    decreases s.len(),
{
    if s.len() > 0 && !is_space(s[0]) {
        lemma_word_len_bound(s.drop_first());
        assert forall|i: int| 0 <= i < word_len(s) implies !is_space(s[i]) by {
            if i > 0 {
                assert(s[i] == s.drop_first()[i - 1]);
            }
        }
    }
}

proof fn lemma_lead_unique(s: Seq<char>, k: int)
    requires
        0 <= k <= s.len(),
        forall|i: int| 0 <= i < k ==> is_space(s[i]),
        k < s.len() ==> !is_space(s[k]),
    ensures
        lead(s) == k,
    decreases s.len(),
{
    if k > 0 {
        lemma_lead_unique(s.drop_first(), k - 1);
    }
}

proof fn lemma_trail_unique(s: Seq<char>, k: int)
    requires
        0 <= k <= s.len(),
        forall|i: int| s.len() - k <= i < s.len() ==> is_space(s[i]),
        k < s.len() ==> !is_space(s[s.len() - k - 1]),
    ensures
        trail(s) == k,
    decreases s.len(),
{
    if k > 0 {
        lemma_trail_unique(s.drop_last(), k - 1);
    }
}

proof fn lemma_word_len_unique(s: Seq<char>, k: int)
    requires
        0 <= k <= s.len(),
        forall|i: int| 0 <= i < k ==> !is_space(s[i]),
        k < s.len() ==> is_space(s[k]),
    ensures
        word_len(s) == k,
    decreases s.len(),
{
    if k > 0 {
        lemma_word_len_unique(s.drop_first(), k - 1);
    }
}

/// `s` without leading and trailing whitespace (`str::trim`).
pub open spec fn trimmed(s: Seq<char>) -> Seq<char> {
    let a = s.skip(lead(s) as int);
    a.take(a.len() - trail(a))
}

/// The whitespace-separated words of `s` (`str::split_whitespace`).
pub open spec fn words(s: Seq<char>) -> Seq<Seq<char>>
    decreases s.len(),
{
    let a = s.skip(lead(s) as int);
    if a.len() == 0 {
        seq![]
    } else {
        proof {
            lemma_lead_bound(s);
            lemma_word_len_bound(a);
        }
        seq![a.take(word_len(a) as int)] + words(a.skip(word_len(a) as int))
    }
}

/// `s` without leading and trailing whitespace.
pub fn trim(s: &str) -> (t: String)
    ensures
        t@ == trimmed(s@),
{
    let chars = chars_of(s);
    let n = chars.len();
    let mut a: usize = 0;
    while a < n && space(chars[a])
        invariant
            chars@ == s@,
            n == chars@.len(),
            a <= n,
            forall|i: int| 0 <= i < a ==> is_space(chars@[i]),
        decreases n - a,
    {
        a = a + 1;
    }
    proof {
        lemma_lead_unique(s@, a as int);
    }
    let mut b: usize = n;
    while b > a && space(chars[b - 1])
        invariant
            chars@ == s@,
            n == chars@.len(),
            a <= b <= n,
            forall|i: int| b <= i < n ==> is_space(chars@[i]),
        decreases b,
    {
        b = b - 1;
    }
    proof {
        let rest = s@.skip(a as int);
        lemma_trail_unique(rest, (n - b) as int);
        assert(rest.take(rest.len() - (n - b)) =~= s@.subrange(a as int, b as int));
    }
    crate::text::substring(s, a, b)
}

/// The whitespace-separated words of `s`.
pub fn split_words(s: &str) -> (w: Vec<String>)
    ensures
        crate::paths::views(w@) == words(s@),
{
    let chars = chars_of(s);
    let n = chars.len();
    let mut out: Vec<String> = Vec::new();
    let mut i: usize = 0;
    assert(s@.skip(0) =~= s@);
    while i < n
        invariant
            chars@ == s@,
            n == chars@.len(),
            i <= n,
            words(s@) == crate::paths::views(out@) + words(s@.skip(i as int)),
        ensures
            words(s@) == crate::paths::views(out@),
        decreases n - i,
    {
        let ghost rest = s@.skip(i as int);
        let start0 = i;
        while i < n && space(chars[i])
            invariant
                chars@ == s@,
                n == chars@.len(),
                start0 <= i <= n,
                forall|k: int| start0 <= k < i ==> is_space(chars@[k]),
            decreases n - i,
        {
            i = i + 1;
        }
        proof {
            lemma_lead_unique(rest, (i - start0) as int);
            assert(rest.skip((i - start0) as int) =~= s@.skip(i as int));
        }
        if i == n {
            assert(s@.skip(i as int).len() == 0);
            assert(words(rest) =~= Seq::<Seq<char>>::empty());
            assert(crate::paths::views(out@) + Seq::<Seq<char>>::empty() =~= crate::paths::views(out@));
            break;
        }
        let start = i;
        while i < n && !space(chars[i])
            invariant
                chars@ == s@,
                n == chars@.len(),
                start <= i <= n,
                forall|k: int| start <= k < i ==> !is_space(chars@[k]),
            decreases n - i,
        {
            i = i + 1;
        }
        let ghost a = s@.skip(start as int);
        proof {
            lemma_word_len_unique(a, (i - start) as int);
            assert(a.take((i - start) as int) =~= s@.subrange(start as int, i as int));
            assert(a.skip((i - start) as int) =~= s@.skip(i as int));
        }
        let word = crate::text::substring(s, start, i);
        let ghost before = crate::paths::views(out@);
        out.push(word);
        assert(crate::paths::views(out@) =~= before.push(word@));
        assert(words(rest) == seq![word@] + words(s@.skip(i as int)));
        assert(before + (seq![word@] + words(s@.skip(i as int))) =~= before.push(word@) + words(
            s@.skip(i as int),
        ));
        if i == n {
            assert(s@.skip(n as int).len() == 0);
            assert(words(s@.skip(n as int)) =~= Seq::<Seq<char>>::empty());
            assert(crate::paths::views(out@) + Seq::<Seq<char>>::empty() =~= crate::paths::views(out@));
        }
    }
    out
}

// ---------------------------------------------------------------- integers

/// The value of one digit in `radix` (10 or 16), as `char::to_digit`.
pub open spec fn digit_value(c: char, radix: nat) -> Option<nat> {
    if '0' <= c <= '9' && (c as nat) - ('0' as nat) < radix {
        Some(((c as nat) - ('0' as nat)) as nat)
    } else if radix == 16 && 'a' <= c <= 'f' {
        Some(((c as nat) - ('a' as nat) + 10) as nat)
    } else if radix == 16 && 'A' <= c <= 'F' {
        Some(((c as nat) - ('A' as nat) + 10) as nat)
    } else {
        None
    }
}

/// The value of a digit string, or `None` if some character is no digit.
pub open spec fn digits_value(s: Seq<char>, radix: nat) -> Option<nat>
    decreases s.len(),
{
    if s.len() == 0 {
        Some(0)
    } else {
        match (digits_value(s.drop_last(), radix), digit_value(s.last(), radix)) {
            (Some(v), Some(d)) => Some(v * radix + d),
            _ => None,
        }
    }
}

/// `from_str_radix` for an unsigned type whose largest value is `max`: an
/// optional `+`, then at least one digit, and a value that fits.
pub open spec fn from_str_radix(s: Seq<char>, radix: nat, max: nat) -> Option<nat> {
    if s.len() == 0 {
        None
    } else if (s[0] == '+' || s[0] == '-') && s.len() == 1 {
        None
    } else {
        let digits = if s[0] == '+' {
            s.drop_first()
        } else {
            s
        };
        match digits_value(digits, radix) {
            Some(v) => if v <= max {
                Some(v)
            } else {
                None
            },
            None => None,
        }
    }
}

proof fn lemma_digits_value_grows(s: Seq<char>, radix: nat, k: int)
    requires
        0 <= k <= s.len(),
        radix >= 2,
        digits_value(s.take(k), radix) is Some,
        digits_value(s, radix) is Some,
    ensures
        digits_value(s, radix).unwrap() >= digits_value(s.take(k), radix).unwrap(),
    decreases s.len() - k,
{
    if k < s.len() {
        assert(s.drop_last().take(k) =~= s.take(k));
        if s.len() > 0 {
            lemma_digits_value_grows(s.drop_last(), radix, k);
            let v = digits_value(s.drop_last(), radix).unwrap();
            assert(v * radix >= v) by (nonlinear_arith)
                requires
                    radix >= 2,
            ;
        }
    } else {
        assert(s.take(k) =~= s);
    }
}

proof fn lemma_digits_value_none(s: Seq<char>, radix: nat, k: int)
    requires
        0 <= k <= s.len(),
        digits_value(s.take(k), radix) is None,
    ensures
        digits_value(s, radix) is None,
    decreases s.len() - k,
{
    if k < s.len() {
        assert(s.drop_last().take(k) =~= s.take(k));
        lemma_digits_value_none(s.drop_last(), radix, k);
    } else {
        assert(s.take(k) =~= s);
    }
}

fn digit(c: char, radix: u32) -> (d: Option<u32>)
    requires
        radix == 10 || radix == 16,
    ensures
        match d {
            Some(v) => digit_value(c, radix as nat) == Some(v as nat) && v < radix,
            None => digit_value(c, radix as nat) is None,
        },
{
    if '0' <= c && c <= '9' && (c as u32) - ('0' as u32) < radix {
        Some((c as u32) - ('0' as u32))
    } else if radix == 16 && 'a' <= c && c <= 'f' {
        Some((c as u32) - ('a' as u32) + 10)
    } else if radix == 16 && 'A' <= c && c <= 'F' {
        Some((c as u32) - ('A' as u32) + 10)
    } else {
        None
    }
}

/// `from_str_radix` on the characters `chars[start..]`, for values up to `max`.
fn radix_value(chars: &Vec<char>, start: usize, radix: u32, max: u32) -> (r: Option<u32>)
    requires
        radix == 10 || radix == 16,
        start <= chars@.len(),
    ensures
        match r {
            Some(v) => from_str_radix(chars@.skip(start as int), radix as nat, max as nat) == Some(
                v as nat,
            ),
            None => from_str_radix(chars@.skip(start as int), radix as nat, max as nat) is None,
        },
{
    let ghost s = chars@.skip(start as int);
    let n = chars.len();
    if start >= n {
        return None;
    }
    if (chars[start] == '+' || chars[start] == '-') && n - start == 1 {
        return None;
    }
    let first = if chars[start] == '+' {
        start + 1
    } else {
        start
    };
    let ghost digits = chars@.skip(first as int);
    assert(digits =~= if s[0] == '+' {
        s.drop_first()
    } else {
        s
    });
    let mut acc: u64 = 0;
    let mut i: usize = first;
    assert(digits.take(0) =~= Seq::<char>::empty());
    while i < n
        invariant
            first <= i <= n,
            n == chars@.len(),
            radix == 10 || radix == 16,
            digits == chars@.skip(first as int),
            s == chars@.skip(start as int),
            s.len() > 0,
            !((s[0] == '+' || s[0] == '-') && s.len() == 1),
            digits == (if s[0] == '+' {
                s.drop_first()
            } else {
                s
            }),
            digits_value(digits.take(i - first), radix as nat) == Some(acc as nat),
            acc <= max,
        decreases n - i,
    {
        let ghost prefix = digits.take(i - first);
        let d = match digit(chars[i], radix) {
            Some(d) => d,
            None => {
                proof {
                    let next = digits.take(i - first + 1);
                    assert(next.drop_last() =~= prefix);
                    assert(next.last() == chars@[i as int]);
                    lemma_digits_value_none(digits, radix as nat, i - first + 1);
                }
                return None;
            },
        };
        assert(acc * (radix as u64) <= 0xffff_ffff * 16) by (nonlinear_arith)
            requires
                acc <= 0xffff_ffff,
                radix <= 16,
        ;
        let next = acc * (radix as u64) + (d as u64);
        proof {
            let np = digits.take(i - first + 1);
            assert(np.drop_last() =~= prefix);
            assert(np.last() == chars@[i as int]);
        }
        if next > max as u64 {
            proof {
                if digits_value(digits, radix as nat) is Some {
                    lemma_digits_value_grows(digits, radix as nat, i - first + 1);
                }
            }
            return None;
        }
        acc = next;
        i = i + 1;
    }
    assert(digits.take(n - first) =~= digits);
    Some(acc as u32)
}

/// A decimal or `0x`-prefixed hexadecimal `u32`, surrounded by any whitespace.
pub open spec fn spec_parse_u32(v: Seq<char>) -> Option<nat> {
    let t = trimmed(v);
    if t.len() >= 2 && t[0] == '0' && t[1] == 'x' {
        from_str_radix(t.skip(2), 16, 0xffff_ffff)
    } else {
        from_str_radix(t, 10, 0xffff_ffff)
    }
}

pub fn parse_u32_text(value: &str) -> (r: Option<u32>)
    ensures
        match r {
            Some(v) => spec_parse_u32(value@) == Some(v as nat),
            None => spec_parse_u32(value@) is None,
        },
{
    let t = trim(value);
    let chars = chars_of(t.as_str());
    if chars.len() >= 2 && chars[0] == '0' && chars[1] == 'x' {
        radix_value(&chars, 2, 16, 0xffff_ffff)
    } else {
        assert(chars@.skip(0) =~= chars@);
        radix_value(&chars, 0, 10, 0xffff_ffff)
    }
}

/// `s` without any number of leading `0x` (`trim_start_matches("0x")`).
pub open spec fn strip_hex_prefixes(s: Seq<char>) -> Seq<char>
    decreases s.len(),
{
    if s.len() >= 2 && s[0] == '0' && s[1] == 'x' {
        strip_hex_prefixes(s.skip(2))
    } else {
        s
    }
}

/// A hexadecimal SVID, after any leading `0x`.
pub open spec fn spec_parse_svid(v: Seq<char>) -> Option<nat> {
    from_str_radix(strip_hex_prefixes(v), 16, 0xffff)
}

pub fn parse_svid(value: &str) -> (r: Option<u16>)
    ensures
        match r {
            Some(v) => spec_parse_svid(value@) == Some(v as nat),
            None => spec_parse_svid(value@) is None,
        },
{
    let chars = chars_of(value);
    let mut i: usize = 0;
    assert(chars@.skip(0) =~= chars@);
    while chars.len() - i >= 2 && chars[i] == '0' && chars[i + 1] == 'x'
        invariant
            i <= chars@.len(),
            chars@ == value@,
            strip_hex_prefixes(value@) == strip_hex_prefixes(chars@.skip(i as int)),
        decreases chars@.len() - i,
    {
        let ghost rest = chars@.skip(i as int);
        assert(rest.skip(2) =~= chars@.skip(i + 2));
        i = i + 2;
    }
    let r = radix_value(&chars, i, 16, 0xffff);
    match r {
        Some(v) => Some(v as u16),
        None => None,
    }
}

/// A decimal mode number.
pub open spec fn spec_parse_u8(v: Seq<char>) -> Option<nat> {
    from_str_radix(v, 10, 0xff)
}

pub fn parse_u8_text(value: &str) -> (r: Option<u8>)
    ensures
        match r {
            Some(v) => spec_parse_u8(value@) == Some(v as nat),
            None => spec_parse_u8(value@) is None,
        },
{
    let chars = chars_of(value);
    assert(chars@.skip(0) =~= chars@);
    match radix_value(&chars, 0, 10, 0xff) {
        Some(v) => Some(v as u8),
        None => None,
    }
}

/// The number of a port name (`port` and digits), if it fits a `u32`.
pub open spec fn spec_port_number(name: Seq<char>) -> Option<nat> {
    if name.len() >= 4 && name[0] == 'p' && name[1] == 'o' && name[2] == 'r' && name[3] == 't' {
        from_str_radix(name.skip(4), 10, 0xffff_ffff)
    } else {
        None
    }
}

pub fn port_number(name: &str) -> (r: Option<u32>)
    ensures
        match r {
            Some(v) => spec_port_number(name@) == Some(v as nat),
            None => spec_port_number(name@) is None,
        },
{
    let chars = chars_of(name);
    if chars.len() >= 4 && chars[0] == 'p' && chars[1] == 'o' && chars[2] == 'r' && chars[3] == 't' {
        radix_value(&chars, 4, 10, 0xffff_ffff)
    } else {
        None
    }
}

} // verus!
