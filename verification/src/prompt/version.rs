//! Ordering of dotted version strings ("1.10.2" > "1.9").
//!
//! A version is split at every '.', each part is read as an unsigned
//! 64-bit decimal (a part that does not read as one counts as 0), and the
//! part lists are compared lexicographically, the shorter list padded
//! with zeros.

use core::cmp::Ordering;
use vstd::prelude::*;

verus! {

/// `s` split at every '.', as `str::split('.')` splits it: `n` dots give
/// `n + 1` parts, empty parts included.
pub open spec fn split_dots(s: Seq<char>) -> Seq<Seq<char>>
    decreases s.len(),
{
    if s.len() == 0 {
        seq![Seq::<char>::empty()]
    } else {
        let rest = split_dots(s.drop_first());
        if s[0] == '.' {
            seq![Seq::<char>::empty()] + rest
        } else {
            rest.update(0, seq![s[0]] + rest[0])
        }
    }
}

pub open spec fn is_digit(c: char) -> bool {
    '0' <= c && c <= '9'
}

pub open spec fn digit_value(c: char) -> nat {
    (c as int - '0' as int) as nat
}

pub open spec fn all_digits(d: Seq<char>) -> bool {
    forall|i: int| 0 <= i < d.len() ==> is_digit(#[trigger] d[i])
}

/// The value of a string of decimal digits.
pub open spec fn digits_value(d: Seq<char>) -> nat
    decreases d.len(),
{
    if d.len() == 0 {
        0
    } else {
        digits_value(d.drop_last()) * 10 + digit_value(d.last())
    }
}

/// The digits that `u64::from_str` reads: an optional leading '+' is skipped.
pub open spec fn unsigned_digits(p: Seq<char>) -> Seq<char> {
    if p.len() > 0 && p[0] == '+' {
        p.drop_first()
    } else {
        p
    }
}

/// What `p.parse::<u64>().ok().unwrap_or(0)` gives: the value of a
/// non-empty run of digits (after an optional '+') that fits in a `u64`,
/// and 0 for anything else.
pub open spec fn part_value(p: Seq<char>) -> nat {
    let d = unsigned_digits(p);
    if d.len() > 0 && all_digits(d) && digits_value(d) <= u64::MAX {
        digits_value(d)
    } else {
        0
    }
}

/// The numeric parts of a version string.
pub open spec fn version_parts(s: Seq<char>) -> Seq<nat> {
    split_dots(s).map_values(|p: Seq<char>| part_value(p))
}

/// Part `i` of a part list padded with zeros.
pub open spec fn padded(a: Seq<nat>, i: int) -> nat {
    if 0 <= i < a.len() {
        a[i]
    } else {
        0
    }
}

pub open spec fn max_len(a: Seq<nat>, b: Seq<nat>) -> int {
    if a.len() >= b.len() {
        a.len() as int
    } else {
        b.len() as int
    }
}

/// Lexicographic comparison of zero-padded part lists from position `i`:
/// -1, 0 or 1.
pub open spec fn compare_parts_from(a: Seq<nat>, b: Seq<nat>, i: int) -> int
    decreases max_len(a, b) - i,
{
    if i < 0 || i >= max_len(a, b) {
        0
    } else if padded(a, i) < padded(b, i) {
        -1
    } else if padded(a, i) > padded(b, i) {
        1
    } else {
        compare_parts_from(a, b, i + 1)
    }
}

/// The comparison of two version strings: -1, 0 or 1.
pub open spec fn version_sign(a: Seq<char>, b: Seq<char>) -> int {
    compare_parts_from(version_parts(a), version_parts(b), 0)
}

/// A whole version comparison outcome as an `Ordering`.
pub open spec fn sign_to_ordering(s: int) -> Ordering {
    if s < 0 {
        Ordering::Less
    } else if s > 0 {
        Ordering::Greater
    } else {
        Ordering::Equal
    }
}

proof fn lemma_digits_value_push(d: Seq<char>, c: char)
    ensures
        digits_value(d.push(c)) == digits_value(d) * 10 + digit_value(c),
{
    assert(d.push(c).drop_last() =~= d);
}

/// Reads `cs[from..to]` as `u64::from_str` would, 0 on any error.
fn parse_part(cs: &Vec<char>, from: usize, to: usize) -> (v: u64)
    requires
        from <= to <= cs@.len(),
    ensures
        v as nat == part_value(cs@.subrange(from as int, to as int)),
{
    let ghost p = cs@.subrange(from as int, to as int);
    let mut start = from;
    if from < to && cs[from] == '+' {
        start = from + 1;
    }
    let ghost d = cs@.subrange(start as int, to as int);
    assert(d =~= unsigned_digits(p));
    if start == to {
        assert(d.len() == 0);
        assert(unsigned_digits(p).len() == 0);
        return 0;
    }
    let mut acc: u64 = 0;
    let mut overflow = false;
    let mut k = start;
    assert(cs@.subrange(start as int, start as int) =~= Seq::<char>::empty());
    while k < to
        invariant
            start <= k <= to <= cs@.len(),
            d == cs@.subrange(start as int, to as int),
            d == unsigned_digits(cs@.subrange(from as int, to as int)),
            forall|j: int| start <= j < k ==> is_digit(#[trigger] cs@[j]),
            !overflow ==> acc as nat == digits_value(cs@.subrange(start as int, k as int)),
            overflow ==> digits_value(cs@.subrange(start as int, k as int)) > u64::MAX,
        decreases to - k,
    {
        let c = cs[k];
        if !('0' <= c && c <= '9') {
            assert(d[k - start] == c);
            assert(!all_digits(d));
            return 0;
        }
        let dv = (c as u32 - '0' as u32) as u64;
        proof {
            assert(cs@.subrange(start as int, k + 1) =~= cs@.subrange(start as int, k as int).push(c));
            lemma_digits_value_push(cs@.subrange(start as int, k as int), c);
        }
        if !overflow {
            if acc > (u64::MAX - dv) / 10 {
                overflow = true;
            } else {
                acc = acc * 10 + dv;
            }
        }
        k = k + 1;
    }
    assert(cs@.subrange(start as int, k as int) =~= d);
    assert(all_digits(d));
    if overflow {
        0
    } else {
        acc
    }
}

/// `parts.update(0, seg + parts[0])`: a segment prefixed to the first part.
pub open spec fn prefix_first(seg: Seq<char>, parts: Seq<Seq<char>>) -> Seq<Seq<char>> {
    parts.update(0, seg + parts[0])
}

proof fn lemma_split_nonempty(s: Seq<char>)
    ensures
        split_dots(s).len() >= 1,
    decreases s.len(),
{
    if s.len() > 0 {
        lemma_split_nonempty(s.drop_first());
    }
}

proof fn lemma_split_step(s: Seq<char>, i: int)
    requires
        0 <= i < s.len(),
    ensures
        s[i] == '.' ==> split_dots(s.skip(i)) == seq![Seq::<char>::empty()] + split_dots(
            s.skip(i + 1),
        ),
        s[i] != '.' ==> split_dots(s.skip(i)) == prefix_first(seq![s[i]], split_dots(s.skip(i + 1))),
{
    assert(s.skip(i).drop_first() =~= s.skip(i + 1));
}

/// The numeric parts of `s`, in order.
fn version_numbers(s: &str) -> (parts: Vec<u64>)
    ensures
        parts@.len() == version_parts(s@).len(),
        forall|k: int| 0 <= k < parts@.len() ==> parts@[k] as nat == #[trigger] version_parts(s@)[k],
{
    let cs = crate::text::chars_of(s);
    let n = cs.len();
    let mut parts: Vec<u64> = Vec::new();
    let ghost mut done: Seq<Seq<char>> = Seq::empty();
    let mut start: usize = 0;
    let mut i: usize = 0;
    assert(s@.skip(0) =~= s@);
    proof {
        lemma_split_nonempty(s@);
        assert(s@.subrange(0, 0) =~= Seq::<char>::empty());
        assert(prefix_first(Seq::<char>::empty(), split_dots(s@)) =~= split_dots(s@));
    }
    while i < n
        invariant
            cs@ == s@,
            n == s@.len(),
            start <= i <= n,
            parts@.len() == done.len(),
            forall|k: int| 0 <= k < done.len() ==> parts@[k] as nat == part_value(#[trigger] done[k]),
            split_dots(s@) == done + prefix_first(
                s@.subrange(start as int, i as int),
                split_dots(s@.skip(i as int)),
            ),
            split_dots(s@.skip(i as int)).len() >= 1,
        decreases n - i,
    {
        let ghost cur = s@.subrange(start as int, i as int);
        let ghost rest = split_dots(s@.skip(i + 1));
        proof {
            lemma_split_step(s@, i as int);
            lemma_split_nonempty(s@.skip(i + 1));
        }
        if cs[i] == '.' {
            let v = parse_part(&cs, start, i);
            parts.push(v);
            proof {
                assert(prefix_first(cur, seq![Seq::<char>::empty()] + rest) =~= seq![cur] + rest);
                assert(done + (seq![cur] + rest) =~= done.push(cur) + rest);
                assert(s@.subrange(i + 1, i + 1) =~= Seq::<char>::empty());
                assert(prefix_first(Seq::<char>::empty(), rest) =~= rest);
                done = done.push(cur);
            }
            i = i + 1;
            start = i;
        } else {
            proof {
                let c = s@[i as int];
                assert(s@.subrange(start as int, i + 1) =~= cur + seq![c]);
                assert(cur + (seq![c] + rest[0]) =~= (cur + seq![c]) + rest[0]);
                assert(prefix_first(cur, prefix_first(seq![c], rest)) =~= prefix_first(
                    cur + seq![c],
                    rest,
                ));
            }
            i = i + 1;
        }
    }
    let v = parse_part(&cs, start, n);
    parts.push(v);
    proof {
        let cur = s@.subrange(start as int, n as int);
        assert(s@.skip(n as int) =~= Seq::<char>::empty());
        assert(split_dots(Seq::<char>::empty()) =~= seq![Seq::<char>::empty()]);
        assert(prefix_first(cur, seq![Seq::<char>::empty()]) =~= seq![cur]);
        done = done.push(cur);
        assert(split_dots(s@) =~= done);
    }
    parts
}

/// The comparison of two version strings as -1, 0 or 1.
pub fn version_sign_exec(a: &str, b: &str) -> (r: i8)
    ensures
        r as int == version_sign(a@, b@),
{
    let pa = version_numbers(a);
    let pb = version_numbers(b);
    let ghost va = version_parts(a@);
    let ghost vb = version_parts(b@);
    let n = if pa.len() >= pb.len() {
        pa.len()
    } else {
        pb.len()
    };
    let mut i: usize = 0;
    while i < n
        invariant
            va == version_parts(a@),
            vb == version_parts(b@),
            pa@.len() == va.len(),
            pb@.len() == vb.len(),
            forall|k: int| 0 <= k < pa@.len() ==> pa@[k] as nat == #[trigger] va[k],
            forall|k: int| 0 <= k < pb@.len() ==> pb@[k] as nat == #[trigger] vb[k],
            n == max_len(va, vb),
            0 <= i <= n,
            compare_parts_from(va, vb, 0) == compare_parts_from(va, vb, i as int),
        decreases n - i,
    {
        let x: u64 = if i < pa.len() {
            pa[i]
        } else {
            0
        };
        let y: u64 = if i < pb.len() {
            pb[i]
        } else {
            0
        };
        assert(x as nat == padded(va, i as int));
        assert(y as nat == padded(vb, i as int));
        if x < y {
            assert(compare_parts_from(va, vb, i as int) == -1);
            return -1;
        } else if x > y {
            assert(compare_parts_from(va, vb, i as int) == 1);
            return 1;
        }
        i = i + 1;
    }
    0
}

/// Compares two dotted version strings part by part.
pub fn compare_versions(a: &str, b: &str) -> (o: Ordering)
    ensures
        o == sign_to_ordering(version_sign(a@, b@)),
{
    let r = version_sign_exec(a, b);
    if r < 0 {
        Ordering::Less
    } else if r > 0 {
        Ordering::Greater
    } else {
        Ordering::Equal
    }
}

proof fn lemma_compare_reflexive(a: Seq<nat>, i: int)
    ensures
        compare_parts_from(a, a, i) == 0,
    decreases max_len(a, a) - i,
{
    if 0 <= i < max_len(a, a) {
        lemma_compare_reflexive(a, i + 1);
    }
}

proof fn lemma_compare_antisymmetric(a: Seq<nat>, b: Seq<nat>, i: int)
    ensures
        compare_parts_from(a, b, i) == -compare_parts_from(b, a, i),
    decreases max_len(a, b) - i,
{
    if 0 <= i < max_len(a, b) {
        lemma_compare_antisymmetric(a, b, i + 1);
    }
}

proof fn lemma_compare_transitive(a: Seq<nat>, b: Seq<nat>, c: Seq<nat>, i: int)
    requires
        i >= 0,
        compare_parts_from(a, b, i) <= 0,
        compare_parts_from(b, c, i) <= 0,
    ensures
        compare_parts_from(a, c, i) <= 0,
        compare_parts_from(a, b, i) < 0 || compare_parts_from(b, c, i) < 0 ==> compare_parts_from(
            a,
            c,
            i,
        ) < 0,
    decreases (if max_len(a, b) >= max_len(b, c) {
        max_len(a, b)
    } else {
        max_len(b, c)
    }) - i,
{
    if i < max_len(a, b) || i < max_len(b, c) {
        if padded(a, i) == padded(b, i) && padded(b, i) == padded(c, i) {
            lemma_compare_transitive(a, b, c, i + 1);
        }
    } else {
        // beyond every list all padded parts are zero
        lemma_tail_zero(a, c, i);
    }
}

proof fn lemma_tail_zero(a: Seq<nat>, c: Seq<nat>, i: int)
    requires
        i >= a.len(),
        i >= c.len(),
    ensures
        compare_parts_from(a, c, i) == 0,
{
}

/// Every version string compares equal to itself.
pub proof fn law_compare_versions_reflexive(a: Seq<char>)
    ensures
        version_sign(a, a) == 0,
{
    lemma_compare_reflexive(version_parts(a), 0);
}

/// Swapping the arguments of a version comparison reverses its outcome.
pub proof fn law_compare_versions_antisymmetric(a: Seq<char>, b: Seq<char>)
    ensures
        version_sign(a, b) == -version_sign(b, a),
{
    lemma_compare_antisymmetric(version_parts(a), version_parts(b), 0);
}

/// Version comparison is transitive: `a <= b` and `b <= c` give `a <= c`,
/// strictly when either step is strict.
pub proof fn law_compare_versions_transitive(a: Seq<char>, b: Seq<char>, c: Seq<char>)
    requires
        version_sign(a, b) <= 0,
        version_sign(b, c) <= 0,
    ensures
        version_sign(a, c) <= 0,
        version_sign(a, b) < 0 || version_sign(b, c) < 0 ==> version_sign(a, c) < 0,
{
    lemma_compare_transitive(version_parts(a), version_parts(b), version_parts(c), 0);
}

proof fn lemma_insert_keeps_descending(before: Seq<String>, x: String, p: int)
    requires
        0 <= p <= before.len(),
        forall|i: int, j: int| 0 <= i < j < before.len() ==> version_sign(before[i]@, before[j]@) >= 0,
        forall|i: int| 0 <= i < p ==> version_sign(x@, #[trigger] before[i]@) <= 0,
        p < before.len() ==> version_sign(x@, before[p]@) > 0,
    ensures
        forall|i: int, j: int|
            0 <= i < j < before.insert(p, x).len() ==> version_sign(
                before.insert(p, x)[i]@,
                before.insert(p, x)[j]@,
            ) >= 0,
{
    let after = before.insert(p, x);
    assert forall|i: int| p <= i < before.len() implies version_sign(x@, #[trigger] before[i]@) > 0 by {
        if i > p {
            assert(version_sign(before[p]@, before[i]@) >= 0);
            law_compare_versions_antisymmetric(before[p]@, before[i]@);
            law_compare_versions_antisymmetric(x@, before[p]@);
            law_compare_versions_transitive(before[i]@, before[p]@, x@);
            law_compare_versions_antisymmetric(before[i]@, x@);
        }
    }
    assert forall|i: int, j: int| 0 <= i < j < after.len() implies version_sign(after[i]@, after[j]@)
        >= 0 by {
        if j == p {
            assert(after[i] == before[i]);
            law_compare_versions_antisymmetric(x@, before[i]@);
        } else if i == p {
            assert(after[j] == before[j - 1]);
        } else if j < p {
            assert(after[i] == before[i] && after[j] == before[j]);
        } else if i < p {
            assert(after[i] == before[i] && after[j] == before[j - 1]);
        } else {
            assert(after[i] == before[i - 1] && after[j] == before[j - 1]);
        }
    }
}

/// The strings of `v` from the highest version to the lowest; strings of
/// equal version keep their order.
pub fn sort_versions_descending(v: Vec<String>) -> (out: Vec<String>)
    ensures
        out@.len() == v@.len(),
        forall|i: int, j: int| 0 <= i < j < out@.len() ==> version_sign(out@[i]@, out@[j]@) >= 0,
        crate::text::all_in(v@, out@),
        crate::text::all_in(out@, v@),
{
    let mut out: Vec<String> = Vec::new();
    let mut k: usize = 0;
    assert(v@.take(0) =~= Seq::<String>::empty());
    while k < v.len()
        invariant
            k <= v@.len(),
            out@.len() == k,
            forall|i: int, j: int| 0 <= i < j < out@.len() ==> version_sign(out@[i]@, out@[j]@) >= 0,
            crate::text::all_in(v@.take(k as int), out@),
            crate::text::all_in(out@, v@.take(k as int)),
        decreases v@.len() - k,
    {
        let x = v[k].clone();
        let mut p: usize = 0;
        while p < out.len() && version_sign_exec(x.as_str(), out[p].as_str()) <= 0
            invariant
                p <= out@.len(),
                forall|i: int| 0 <= i < p ==> version_sign(x@, #[trigger] out@[i]@) <= 0,
            decreases out@.len() - p,
        {
            p = p + 1;
        }
        proof {
            lemma_insert_keeps_descending(out@, x, p as int);
            crate::text::lemma_insert_membership(out@, x, p as int, v@, k as int);
        }
        out.insert(p, x);
        k = k + 1;
    }
    assert(v@.take(v@.len() as int) =~= v@);
    out
}

} // verus!
