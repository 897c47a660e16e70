use vstd::prelude::*;
use crate::text::{
    find_first, is_digit, is_digit_char, digit_val, trim_spec, trim_str, find_char_from,
    lemma_find_first_unique,
};

verus! {

/// `s` with every leading 'v' removed.
pub open spec fn strip_vs(s: Seq<char>) -> Seq<char>
    decreases s.len(),
{
    if s.len() > 0 && s[0] == 'v' {
        strip_vs(s.skip(1))
    } else {
        s
    }
}

/// The comparable core of a version string: surrounding whitespace and the
/// customary leading 'v' prefix are discarded.
pub open spec fn version_core(s: Seq<char>) -> Seq<char> {
    strip_vs(trim_spec(s))
}

/// Every character of `s` is a decimal digit.
pub open spec fn all_digits(s: Seq<char>) -> bool {
    forall|i: int| 0 <= i < s.len() ==> is_digit(s[i])
}

/// The number denoted by a sequence of decimal digits.
pub open spec fn digits_value(s: Seq<char>) -> int
    decreases s.len(),
{
    if s.len() == 0 {
        0
    } else {
        digits_value(s.drop_last()) * 10 + digit_val(s.last())
    }
}

/// The digit part of a component: one optional leading '+' sign is
/// accepted before the digits, as the decimal reader accepts it.
pub open spec fn component_digits(s: Seq<char>) -> Seq<char> {
    if s.len() > 0 && s[0] == '+' {
        s.skip(1)
    } else {
        s
    }
}

/// The numeric value of one dotted component: a non-empty all-digit string
/// (after one optional leading '+') that fits in a `u32` denotes its
/// number; anything else counts as 0.
pub open spec fn component_value(s: Seq<char>) -> u32 {
    let d = component_digits(s);
    if d.len() > 0 && all_digits(d) && digits_value(d) <= u32::MAX {
        digits_value(d) as u32
    } else {
        0
    }
}

/// `s` split at every '.'; a string without dots is a single component, so
/// the result is never empty.
pub open spec fn split_dots(s: Seq<char>) -> Seq<Seq<char>>
    decreases s.len(),
{
    let i = find_first(s, '.');
    if 0 <= i < s.len() {
        seq![s.take(i)] + split_dots(s.skip(i + 1))
    } else {
        seq![s]
    }
}

/// The numeric components of a version string.
pub open spec fn components_spec(s: Seq<char>) -> Seq<u32> {
    split_dots(version_core(s)).map_values(|p: Seq<char>| component_value(p))
}

/// Lexicographic "strictly newer" comparison of component vectors from
/// position `i` on, with missing trailing components read as 0.
pub open spec fn newer_at(a: Seq<u32>, b: Seq<u32>, i: int) -> bool
    decreases a.len() + b.len() - i,
{
    if i >= a.len() && i >= b.len() {
        false
    } else {
        let x = if i < a.len() { a[i] } else { 0u32 };
        let y = if i < b.len() { b[i] } else { 0u32 };
        if x > y {
            true
        } else if x < y {
            false
        } else {
            newer_at(a, b, i + 1)
        }
    }
}

/// `a` is strictly newer than `b`.
pub open spec fn newer_spec(a: Seq<u32>, b: Seq<u32>) -> bool {
    newer_at(a, b, 0)
}

proof fn lemma_all_digits_prefix(s: Seq<char>)
    requires
        s.len() > 0,
        all_digits(s),
    ensures
        all_digits(s.drop_last()),
{
    assert forall|i: int| 0 <= i < s.drop_last().len() implies is_digit(s.drop_last()[i]) by {
        assert(s.drop_last()[i] == s[i]);
    }
}

proof fn lemma_digits_value_nonneg(s: Seq<char>)
    requires
        all_digits(s),
    ensures
        digits_value(s) >= 0,
    decreases s.len(),
{
    if s.len() > 0 {
        lemma_all_digits_prefix(s);
        lemma_digits_value_nonneg(s.drop_last());
        assert(is_digit(s.last()));
    }
}

proof fn lemma_strip_vs_index(s: Seq<char>, i: int)
    requires
        0 <= i <= s.len(),
        forall|j: int| 0 <= j < i ==> s[j] == 'v',
        i < s.len() ==> s[i] != 'v',
    ensures
        strip_vs(s) == s.skip(i),
    decreases i,
{
    if i == 0 {
        assert(s.skip(0) == s);
    } else {
        assert(s[0] == 'v');
        lemma_strip_vs_index(s.skip(1), i - 1);
        assert(s.skip(1).skip(i - 1) =~= s.skip(i));
    }
}

/// The number denoted by a plain digit string, or 0.
fn digits_value_of(s: &str) -> (r: u32)
    ensures
        r == (if s@.len() > 0 && all_digits(s@) && digits_value(s@) <= u32::MAX {
            digits_value(s@) as u32
        } else {
            0u32
        }),
{
    let n: usize = s.unicode_len();
    if n == 0 {
        return 0;
    }
    let mut acc: u64 = 0;
    let mut overflow: bool = false;
    let mut i: usize = 0;
    while i < n
        invariant
            0 <= i <= n,
            n == s@.len(),
            all_digits(s@.take(i as int)),
            !overflow ==> acc == digits_value(s@.take(i as int)) && acc <= u32::MAX,
            overflow ==> digits_value(s@.take(i as int)) > u32::MAX,
        decreases n - i,
    {
        let c = s.get_char(i);
        if !is_digit_char(c) {
            assert(!all_digits(s@));
            return 0;
        }
        let d: u32 = (c as u32) - 48;
        proof {
            assert(s@.take(i + 1).drop_last() =~= s@.take(i as int));
            assert(s@.take(i + 1).last() == s@[i as int]);
            assert forall|j: int| 0 <= j < i + 1 implies #[trigger] is_digit(s@.take(i + 1)[j]) by {
                if j < i {
                    assert(s@.take(i as int)[j] == s@[j]);
                }
            }
            if overflow {
                lemma_all_digits_prefix(s@.take(i + 1));
                assert(digits_value(s@.take(i + 1)) == digits_value(s@.take(i as int)) * 10
                    + digit_val(s@[i as int]));
            }
        }
        if !overflow {
            let next: u64 = acc * 10 + d as u64;
            if next > 0xFFFF_FFFFu64 {
                overflow = true;
                assert(digits_value(s@.take(i + 1)) > u32::MAX);
            } else {
                acc = next;
            }
        }
        i = i + 1;
    }
    proof {
        assert(s@.take(n as int) =~= s@);
    }
    if overflow {
        0
    } else {
        acc as u32
    }
}

/// The numeric value of one dotted version component: non-empty all-digit
/// components (after one optional leading '+') that fit in a `u32` denote
/// their number, all others count as 0.
pub fn parse_component(s: &str) -> (r: u32)
    ensures
        r == component_value(s@),
{
    let n: usize = s.unicode_len();
    if n > 0 && s.get_char(0) == '+' {
        let d = s.substring_char(1, n);
        proof {
            assert(d@ =~= s@.skip(1));
        }
        digits_value_of(d)
    } else {
        digits_value_of(s)
    }
}

/// Splits a version string into its numeric components: the string is
/// trimmed, a leading 'v' prefix is dropped, the rest is split on '.', and
/// each part is read with [`parse_component`].
pub fn parse_version(version: &str) -> (r: Vec<u32>)
    ensures
        r@ == components_spec(version@),
{
    let trimmed = trim_str(version);
    let tn: usize = trimmed.unicode_len();
    let mut st: usize = 0;
    while st < tn && trimmed.get_char(st) == 'v'
        invariant
            0 <= st <= tn,
            tn == trimmed@.len(),
            forall|j: int| 0 <= j < st ==> trimmed@[j] == 'v',
        decreases tn - st,
    {
        st = st + 1;
    }
    proof {
        lemma_strip_vs_index(trimmed@, st as int);
    }
    let body = trimmed.substring_char(st, tn);
    let bn: usize = body.unicode_len();
    assert(body@ == version_core(version@));

    let ghost cv = |p: Seq<char>| component_value(p);
    let mut out: Vec<u32> = Vec::new();
    let mut pos: usize = 0;
    let mut done: bool = false;
    proof {
        assert(body@.skip(0) == body@);
        assert(out@ + split_dots(body@).map_values(cv) =~= split_dots(body@).map_values(cv));
    }
    while !done
        invariant
            0 <= pos <= bn,
            bn == body@.len(),
            body@ == version_core(version@),
            cv == (|p: Seq<char>| component_value(p)),
            !done ==> split_dots(body@).map_values(cv) == out@ + split_dots(
                body@.skip(pos as int),
            ).map_values(cv),
            done ==> out@ == split_dots(body@).map_values(cv),
        decreases bn - pos + (if done { 0int } else { 1int }),
    {
        let dot = find_char_from(body, pos, '.');
        let part = body.substring_char(pos, dot);
        proof {
            let t = body@.skip(pos as int);
            assert forall|j: int| 0 <= j < dot - pos implies t[j] != '.' by {
                assert(t[j] == body@[pos + j]);
            }
            if dot < bn {
                assert(t[dot - pos] == body@[dot as int]);
            }
            lemma_find_first_unique(t, '.', dot - pos);
            if dot < bn {
                assert(split_dots(t) == seq![t.take(dot - pos)] + split_dots(
                    t.skip(dot - pos + 1),
                ));
                assert(t.take(dot - pos) =~= body@.subrange(pos as int, dot as int));
                assert(t.skip(dot - pos + 1) =~= body@.skip(dot + 1));
                assert((seq![part@] + split_dots(body@.skip(dot + 1))).map_values(cv) =~= seq![
                    cv(part@),
                ] + split_dots(body@.skip(dot + 1)).map_values(cv));
            } else {
                assert(split_dots(t) == seq![t]);
                assert(part@ =~= t);
                assert(seq![part@].map_values(cv) =~= seq![cv(part@)]);
            }
        }
        let value = parse_component(part);
        out.push(value);
        if dot == bn {
            done = true;
        } else {
            pos = dot + 1;
        }
    }
    out
}

/// Whether `latest` names a strictly newer version than `current`:
/// components are compared numerically from most- to least-significant,
/// missing trailing components count as 0.
pub fn is_newer_version(latest: &str, current: &str) -> (r: bool)
    ensures
        r == newer_spec(components_spec(latest@), components_spec(current@)),
{
    let a = parse_version(latest);
    let b = parse_version(current);
    let al: usize = a.len();
    let bl: usize = b.len();
    let max: usize = if al > bl {
        al
    } else {
        bl
    };
    let mut i: usize = 0;
    while i < max
        invariant
            0 <= i <= max,
            al == a@.len(),
            bl == b@.len(),
            a@ == components_spec(latest@),
            b@ == components_spec(current@),
            max == (if al > bl {
                al
            } else {
                bl
            }),
            newer_at(a@, b@, 0) == newer_at(a@, b@, i as int),
        decreases max - i,
    {
        let x: u32 = if i < al {
            a[i]
        } else {
            0
        };
        let y: u32 = if i < bl {
            b[i]
        } else {
            0
        };
        if x > y {
            proof {
                assert(newer_at(a@, b@, i as int));
            }
            return true;
        }
        if x < y {
            proof {
                assert(!newer_at(a@, b@, i as int));
            }
            return false;
        }
        proof {
            assert(newer_at(a@, b@, i as int) == newer_at(a@, b@, i + 1));
        }
        i = i + 1;
    }
    proof {
        assert(!newer_at(a@, b@, i as int));
    }
    false
}

/// No version is newer than itself.
pub proof fn lemma_newer_irreflexive(a: Seq<u32>)
    ensures
        !newer_spec(a, a),
{
    lemma_newer_at_irreflexive(a, 0);
}

proof fn lemma_newer_at_irreflexive(a: Seq<u32>, i: int)
    ensures
        !newer_at(a, a, i),
    decreases a.len() + a.len() - i,
{
    if i < a.len() {
        lemma_newer_at_irreflexive(a, i + 1);
    }
}

/// "Strictly newer" is asymmetric: if `a` is newer than `b`, then `b` is
/// not newer than `a`.
pub proof fn lemma_newer_asymmetric(a: Seq<u32>, b: Seq<u32>)
    requires
        newer_spec(a, b),
    ensures
        !newer_spec(b, a),
{
    lemma_newer_at_asymmetric(a, b, 0);
}

proof fn lemma_newer_at_asymmetric(a: Seq<u32>, b: Seq<u32>, i: int)
    requires
        newer_at(a, b, i),
    ensures
        !newer_at(b, a, i),
    decreases a.len() + b.len() - i,
{
    if !(i >= a.len() && i >= b.len()) {
        let x = if i < a.len() { a[i] } else { 0u32 };
        let y = if i < b.len() { b[i] } else { 0u32 };
        if x == y {
            lemma_newer_at_asymmetric(a, b, i + 1);
        }
    }
}

} // verus!
