//! Deciding, from what the release query printed, whether a newer release is
//! out.

use crate::devices::chars_of;
use vstd::prelude::*;

verus! {

/// The installed version's tag.
pub const CURRENT_VERSION: &'static str = "v1.1.1";

/// The characters with the Unicode `White_Space` property, which
/// `char::is_whitespace` and `str::trim` go by.
pub open spec fn is_white_space(c: char) -> bool {
    let v = c as u32;
    (0x09 <= v <= 0x0d) || v == 0x20 || v == 0x85 || v == 0xa0 || v == 0x1680 || (0x2000 <= v
        <= 0x200a) || v == 0x2028 || v == 0x2029 || v == 0x202f || v == 0x205f || v == 0x3000
}

/// `t` is `s` without its leading and trailing white space.
pub open spec fn is_trim_of(s: Seq<char>, t: Seq<char>) -> bool {
    exists|a: int, b: int|
        0 <= a <= b <= s.len() && t == #[trigger] s.subrange(a, b) && (forall|j: int|
            0 <= j < a ==> is_white_space(#[trigger] s[j])) && (forall|j: int|
            b <= j < s.len() ==> is_white_space(#[trigger] s[j])) && (a < b ==> !is_white_space(s[a])
            && !is_white_space(s[b - 1]))
}

/// Whether `c` is white space, as `char::is_whitespace` says.
pub fn is_white_space_char(c: char) -> (b: bool)
    ensures
        b == is_white_space(c),
{
    let v = c as u32;
    (0x09 <= v && v <= 0x0d) || v == 0x20 || v == 0x85 || v == 0xa0 || v == 0x1680 || (0x2000 <= v
        && v <= 0x200a) || v == 0x2028 || v == 0x2029 || v == 0x202f || v == 0x205f || v == 0x3000
}

/// `s` without leading and trailing white space, as `str::trim` gives it.
pub fn trim(s: &str) -> (t: String)
    ensures
        is_trim_of(s@, t@),
{
    let c = chars_of(s);
    let n = c.len();
    let mut a: usize = 0;
    while a < n && is_white_space_char(c[a])
        invariant
            a <= n == c@.len(),
            c@ == s@,
            forall|j: int| 0 <= j < a ==> is_white_space(#[trigger] s@[j]),
        decreases n - a,
    {
        a = a + 1;
    }
    let mut b: usize = n;
    while b > a && is_white_space_char(c[b - 1])
        invariant
            a <= b <= n == c@.len(),
            c@ == s@,
            forall|j: int| b <= j < n ==> is_white_space(#[trigger] s@[j]),
        decreases b - a,
    {
        b = b - 1;
    }
    let piece = s.substring_char(a, b);
    let t = piece.to_owned();
    assert(a < b ==> !is_white_space(s@[a as int]) && !is_white_space(s@[b - 1]));
    assert(is_trim_of(s@, t@)) by {
        assert(t@ == s@.subrange(a as int, b as int));
    }
    t
}

/// The release tag in the output of the release query: the trimmed text when
/// it starts with `v`, nothing otherwise.
pub fn release_tag(output: &str) -> (tag: Option<String>)
    ensures
        match tag {
            Some(t) => is_trim_of(output@, t@) && t@.len() > 0 && t@[0] == 'v',
            None => forall|t: Seq<char>| #[trigger] is_trim_of(output@, t) ==> t.len() == 0 || t[0]
                != 'v',
        },
{
    let t = trim(output);
    let tc = chars_of(t.as_str());
    if tc.len() > 0 && tc[0] == 'v' {
        Some(t)
    } else {
        proof {
            assert forall|u: Seq<char>| #[trigger] is_trim_of(output@, u) implies u.len() == 0 || u[0]
                != 'v' by {
                lemma_trim_unique(output@, t@, u);
            }
        }
        None
    }
}

/// A text has one trimmed form.
pub proof fn lemma_trim_unique(s: Seq<char>, t1: Seq<char>, t2: Seq<char>)
    requires
        is_trim_of(s, t1),
        is_trim_of(s, t2),
    ensures
        t1 == t2,
{
    let (a1, b1) = choose|a: int, b: int|
        0 <= a <= b <= s.len() && t1 == #[trigger] s.subrange(a, b) && (forall|j: int|
            0 <= j < a ==> is_white_space(#[trigger] s[j])) && (forall|j: int|
            b <= j < s.len() ==> is_white_space(#[trigger] s[j])) && (a < b ==> !is_white_space(s[a])
            && !is_white_space(s[b - 1]));
    let (a2, b2) = choose|a: int, b: int|
        0 <= a <= b <= s.len() && t2 == #[trigger] s.subrange(a, b) && (forall|j: int|
            0 <= j < a ==> is_white_space(#[trigger] s[j])) && (forall|j: int|
            b <= j < s.len() ==> is_white_space(#[trigger] s[j])) && (a < b ==> !is_white_space(s[a])
            && !is_white_space(s[b - 1]));
    if a1 < b1 && a2 < b2 {
        if a1 < a2 {
            assert(is_white_space(s[a1]));
        }
        if a2 < a1 {
            assert(is_white_space(s[a2]));
        }
        if b1 < b2 {
            assert(is_white_space(s[b2 - 1]));
        }
        if b2 < b1 {
            assert(is_white_space(s[b1 - 1]));
        }
    } else if a1 < b1 {
        assert(is_white_space(s[a1]));
    } else if a2 < b2 {
        assert(is_white_space(s[a2]));
    }
    assert(t1 =~= t2);
}

/// A decimal digit.
pub open spec fn is_digit(c: char) -> bool {
    0x30 <= c as u32 <= 0x39
}

/// A non-empty run of decimal digits.
pub open spec fn all_digits(s: Seq<char>) -> bool {
    s.len() > 0 && forall|k: int| 0 <= k < s.len() ==> is_digit(#[trigger] s[k])
}

/// The number that a run of decimal digits writes.
pub open spec fn digits_value(s: Seq<char>) -> nat
    decreases s.len(),
{
    if s.len() == 0 {
        0
    } else {
        digits_value(s.drop_last()) * 10 + (s.last() as u32 - 0x30) as nat
    }
}

/// `t` is `vX.Y.Z` with its two dots at `i` and `j`, each part a run of digits.
pub open spec fn version_split(t: Seq<char>, i: int, j: int) -> bool {
    &&& t.len() > 0
    &&& t[0] == 'v'
    &&& 1 <= i < j < t.len()
    &&& t[i] == '.'
    &&& t[j] == '.'
    &&& all_digits(t.subrange(1, i))
    &&& all_digits(t.subrange(i + 1, j))
    &&& all_digits(t.subrange(j + 1, t.len() as int))
}

/// The version `(major, minor, patch)` that a tag `vX.Y.Z` names, if it is one.
pub open spec fn tag_version(t: Seq<char>) -> Option<(nat, nat, nat)> {
    if exists|i: int, j: int| version_split(t, i, j) {
        let (i, j) = choose|i: int, j: int| version_split(t, i, j);
        Some(
            (
                digits_value(t.subrange(1, i)),
                digits_value(t.subrange(i + 1, j)),
                digits_value(t.subrange(j + 1, t.len() as int)),
            ),
        )
    } else {
        None
    }
}

/// Version `a` comes after version `b`: by major, then minor, then patch.
pub open spec fn version_after(a: (nat, nat, nat), b: (nat, nat, nat)) -> bool {
    a.0 > b.0 || (a.0 == b.0 && (a.1 > b.1 || (a.1 == b.1 && a.2 > b.2)))
}

/// A version part as 64 bits hold it: the part itself, or `u64::MAX` for a
/// larger one.
pub open spec fn capped(n: nat) -> nat {
    if n > u64::MAX {
        u64::MAX as nat
    } else {
        n
    }
}

/// A tag has at most one way of splitting into `vX.Y.Z`.
pub proof fn lemma_version_split_unique(t: Seq<char>, i: int, j: int, i2: int, j2: int)
    requires
        version_split(t, i, j),
        version_split(t, i2, j2),
    ensures
        i == i2,
        j == j2,
{
    if i < i2 {
        assert(t.subrange(1, i2)[i - 1] == t[i]);
    }
    if i2 < i {
        assert(t.subrange(1, i)[i2 - 1] == t[i2]);
    }
    if j < j2 {
        assert(t.subrange(i + 1, j2)[j - i - 1] == t[j]);
    }
    if j2 < j {
        assert(t.subrange(i + 1, j)[j2 - i - 1] == t[j2]);
    }
}

proof fn lemma_tag_version_at(t: Seq<char>, i: int, j: int)
    requires
        version_split(t, i, j),
    ensures
        tag_version(t) == Some(
            (
                digits_value(t.subrange(1, i)),
                digits_value(t.subrange(i + 1, j)),
                digits_value(t.subrange(j + 1, t.len() as int)),
            ),
        ),
{
    let (i2, j2) = choose|i: int, j: int| version_split(t, i, j);
    lemma_version_split_unique(t, i, j, i2, j2);
}

/// The first `.` in `c` at or after `from`, or the length when there is none.
fn find_dot(c: &Vec<char>, from: usize) -> (r: usize)
    requires
        from <= c@.len(),
    ensures
        from <= r <= c@.len(),
        forall|k: int| from <= k < r ==> #[trigger] c@[k] != '.',
        r < c@.len() ==> c@[r as int] == '.',
{
    let mut r = from;
    while r < c.len() && c[r] != '.'
        invariant
            from <= r <= c@.len(),
            forall|k: int| from <= k < r ==> #[trigger] c@[k] != '.',
        decreases c@.len() - r,
    {
        r = r + 1;
    }
    r
}

/// The number that `c[from..to]` writes, capped at `u64::MAX`, when it is a
/// run of digits.
fn component(c: &Vec<char>, from: usize, to: usize) -> (r: Option<u64>)
    requires
        from <= to <= c@.len(),
    ensures
        r is Some <==> all_digits(c@.subrange(from as int, to as int)),
        r matches Some(v) ==> v == capped(digits_value(c@.subrange(from as int, to as int))),
{
    let ghost sub = c@.subrange(from as int, to as int);
    if from == to {
        return None;
    }
    let mut v: u64 = 0;
    let mut k: usize = from;
    while k < to
        invariant
            from <= k <= to <= c@.len(),
            sub == c@.subrange(from as int, to as int),
            forall|q: int| 0 <= q < k - from ==> is_digit(#[trigger] sub[q]),
            v == capped(digits_value(sub.take(k - from))),
        decreases to - k,
    {
        let d = c[k] as u32;
        if d < 0x30 || d > 0x39 {
            assert(!is_digit(sub[k - from]));
            return None;
        }
        let ghost pre = sub.take(k - from);
        let ghost dv = digits_value(pre);
        assert(sub.take(k - from + 1).drop_last() =~= pre);
        assert(sub.take(k - from + 1).last() == c@[k as int]);
        assert(digits_value(sub.take(k - from + 1)) == dv * 10 + (d - 0x30));
        if v > (u64::MAX - (d - 0x30) as u64) / 10 {
            assert(dv * 10 + (d - 0x30) > u64::MAX) by (nonlinear_arith)
                requires
                    v == capped(dv),
                    v > (u64::MAX - (d - 0x30)) / 10,
                    0 <= d - 0x30 <= 9,
            ;
            v = u64::MAX;
        } else {
            assert(dv * 10 + (d - 0x30) <= u64::MAX && dv == v) by (nonlinear_arith)
                requires
                    v == capped(dv),
                    v <= (u64::MAX - (d - 0x30)) / 10,
                    0 <= d - 0x30 <= 9,
            ;
            v = v * 10 + (d - 0x30) as u64;
        }
        k = k + 1;
    }
    assert(sub.take(to - from) =~= sub);
    Some(v)
}

/// The version that a tag `vX.Y.Z` names, each part capped at `u64::MAX`.
pub fn parse_version(t: &str) -> (r: Option<(u64, u64, u64)>)
    ensures
        r is Some <==> tag_version(t@) is Some,
        r matches Some((a, b, c)) ==> {
            let v = tag_version(t@)->0;
            a == capped(v.0) && b == capped(v.1) && c == capped(v.2)
        },
{
    let ch = chars_of(t);
    let n = ch.len();
    if n == 0 || ch[0] != 'v' {
        return None;
    }
    let i = find_dot(&ch, 1);
    if i >= n {
        proof {
            assert forall|i2: int, j2: int| !version_split(t@, i2, j2) by {
                if version_split(t@, i2, j2) {
                    assert(t@[i2] == '.');
                }
            }
        }
        return None;
    }
    let j = find_dot(&ch, i + 1);
    if j >= n {
        proof {
            assert forall|i2: int, j2: int| !version_split(t@, i2, j2) by {
                if version_split(t@, i2, j2) {
                    if i2 > i {
                        assert(t@.subrange(1, i2)[i - 1] == t@[i as int]);
                    }
                    assert(i2 == i);
                    assert(t@[j2] == '.');
                }
            }
        }
        return None;
    }
    let a = component(&ch, 1, i);
    let b = component(&ch, i + 1, j);
    let c = component(&ch, j + 1, n);
    proof {
        assert forall|i2: int, j2: int| version_split(t@, i2, j2) implies i2 == i && j2 == j by {
            if i2 > i {
                assert(t@.subrange(1, i2)[i - 1] == t@[i as int]);
            }
            if j2 > j {
                assert(t@.subrange(i2 + 1, j2)[j - i2 - 1] == t@[j as int]);
            }
        }
        if a is Some && b is Some && c is Some {
            assert(version_split(t@, i as int, j as int));
            lemma_tag_version_at(t@, i as int, j as int);
        } else if version_split(t@, i as int, j as int) {
            lemma_tag_version_at(t@, i as int, j as int);
        }
    }
    match (a, b, c) {
        (Some(a), Some(b), Some(c)) => Some((a, b, c)),
        _ => None,
    }
}

/// The installed version names `1.1.1`.
pub proof fn lemma_current_version()
    ensures
        tag_version(CURRENT_VERSION@) == Some((1nat, 1nat, 1nat)),
{
    reveal_strlit("v1.1.1");
    let t = CURRENT_VERSION@;
    assert(t.subrange(1, 2) =~= seq!['1']);
    assert(t.subrange(3, 4) =~= seq!['1']);
    assert(t.subrange(5, 6) =~= seq!['1']);
    assert(seq!['1'].drop_last() =~= Seq::<char>::empty());
    assert(digits_value(Seq::<char>::empty()) == 0);
    assert(('1' as u32) == 0x31u32);
    assert(seq!['1'].last() == '1');
    assert(digits_value(seq!['1']) == 1);
    assert(version_split(t, 2, 4));
    lemma_tag_version_at(t, 2, 4);
}

/// The tag to announce: a found release tag that names a version after the
/// installed one.
pub fn newer_release(tag: Option<String>) -> (update: Option<String>)
    ensures
        match tag {
            Some(t) => match tag_version(t@) {
                Some(v) => if version_after(v, tag_version(CURRENT_VERSION@)->0) {
                    update == Some(t)
                } else {
                    update is None
                },
                None => update is None,
            },
            None => update is None,
        },
{
    proof {
        lemma_current_version();
    }
    match tag {
        Some(t) => {
            match parse_version(t.as_str()) {
                Some((major, minor, patch)) => {
                    let after = major > 1 || (major == 1 && (minor > 1 || (minor == 1 && patch
                        > 1)));
                    if after {
                        Some(t)
                    } else {
                        None
                    }
                },
                None => None,
            }
        },
        None => None,
    }
}

} // verus!
