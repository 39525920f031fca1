//! Character-level text operations used by templates, identifiers and
//! error messages, each proved against a small specification over
//! `Seq<char>`.

use vstd::prelude::*;

verus! {

/// The characters of `s` in order.
pub fn chars_of(s: &str) -> (v: Vec<char>)
    ensures
        v@ == s@,
{
    let n = s.unicode_len();
    let mut v: Vec<char> = Vec::new();
    let mut i: usize = 0;
    while i < n
        invariant
            n == s@.len(),
            i <= n,
            v@ == s@.subrange(0, i as int),
        decreases n - i,
    {
        v.push(s.get_char(i));
        i = i + 1;
    }
    v
}

/// Whether two string slices hold the same characters.
pub fn str_equal(a: &str, b: &str) -> (r: bool)
    ensures
        r == (a@ == b@),
{
    let x = a.to_owned();
    let y = b.to_owned();
    x == y
}

/// A fresh `String` holding the characters of `s`.
pub fn owned(s: &str) -> (r: String)
    ensures
        r@ == s@,
{
    s.to_owned()
}

/// An optional string as an optional character sequence.
pub open spec fn opt_view(o: Option<String>) -> Option<Seq<char>> {
    match o {
        Some(s) => Some(s@),
        None => None,
    }
}

/// A copy of an optional string.
pub fn clone_opt(o: &Option<String>) -> (r: Option<String>)
    ensures
        opt_view(r) == opt_view(*o),
{
    match o {
        Some(s) => Some(s.clone()),
        None => None,
    }
}

/// `p` occurs in `s` starting at position `i`.
pub open spec fn occurs_at(s: Seq<char>, p: Seq<char>, i: int) -> bool {
    0 <= i && i + p.len() <= s.len() && s.subrange(i, i + p.len()) == p
}

/// `p` occurs somewhere in `s`.
pub open spec fn seq_contains(s: Seq<char>, p: Seq<char>) -> bool {
    exists|i: int| occurs_at(s, p, i)
}

/// `s` with every leftmost, non-overlapping occurrence of the non-empty
/// pattern `p` replaced by `r`, scanning from the front.
pub open spec fn replace_all_seq(s: Seq<char>, p: Seq<char>, r: Seq<char>) -> Seq<char>
    decreases s.len(),
{
    if p.len() == 0 || s.len() < p.len() {
        s
    } else if s.subrange(0, p.len() as int) == p {
        r + replace_all_seq(s.skip(p.len() as int), p, r)
    } else {
        seq![s[0]] + replace_all_seq(s.skip(1), p, r)
    }
}

fn occurs_at_exec(s: &Vec<char>, p: &Vec<char>, i: usize) -> (b: bool)
    requires
        i + p@.len() <= s@.len(),
    ensures
        b == occurs_at(s@, p@, i as int),
{
    let n = s.len();
    let mut j: usize = 0;
    while j < p.len()
        invariant
            n == s@.len(),
            i + p@.len() <= s@.len(),
            j <= p@.len(),
            forall|k: int| 0 <= k < j ==> s@[i + k] == p@[k],
        decreases p@.len() - j,
    {
        if s[i + j] != p[j] {
            assert(s@.subrange(i as int, i + p@.len())[j as int] != p@[j as int]);
            return false;
        }
        j = j + 1;
    }
    assert(s@.subrange(i as int, i + p@.len()) =~= p@);
    true
}

/// Whether `p` occurs in `s`.
pub fn contains_str(s: &str, p: &str) -> (b: bool)
    ensures
        b == seq_contains(s@, p@),
{
    let cs = chars_of(s);
    let ps = chars_of(p);
    if ps.len() > cs.len() {
        assert forall|i: int| !occurs_at(s@, p@, i) by {}
        return false;
    }
    if ps.len() == 0 {
        assert(s@.subrange(0, 0) =~= p@);
        assert(occurs_at(s@, p@, 0));
        return true;
    }
    let mut i: usize = 0;
    let n = cs.len();
    let last = cs.len() - ps.len();
    while i <= last
        invariant
            n == cs@.len(),
            last == cs@.len() - ps@.len(),
            cs@ == s@,
            ps@ == p@,
            ps@.len() <= cs@.len(),
            ps@.len() > 0,
            i <= last + 1,
            forall|k: int| 0 <= k < i ==> !occurs_at(s@, p@, k),
        decreases last + 1 - i,
    {
        if occurs_at_exec(&cs, &ps, i) {
            return true;
        }
        i = i + 1;
    }
    assert forall|k: int| !occurs_at(s@, p@, k) by {
        if 0 <= k && k + p@.len() <= s@.len() {
            assert(k < i);
        }
    }
    false
}

proof fn lemma_replace_step_miss(s: Seq<char>, p: Seq<char>, r: Seq<char>, i: int)
    requires
        p.len() > 0,
        0 <= i,
        i + p.len() <= s.len(),
        !occurs_at(s, p, i),
    ensures
        replace_all_seq(s.skip(i), p, r) == seq![s[i]] + replace_all_seq(s.skip(i + 1), p, r),
{
    let t = s.skip(i);
    assert(t.subrange(0, p.len() as int) =~= s.subrange(i, i + p.len()));
    assert(t.skip(1) =~= s.skip(i + 1));
}

proof fn lemma_replace_step_hit(s: Seq<char>, p: Seq<char>, r: Seq<char>, i: int)
    requires
        p.len() > 0,
        0 <= i,
        occurs_at(s, p, i),
    ensures
        replace_all_seq(s.skip(i), p, r) == r + replace_all_seq(s.skip(i + p.len()), p, r),
{
    let t = s.skip(i);
    assert(t.subrange(0, p.len() as int) =~= s.subrange(i, i + p.len()));
    assert(t.skip(p.len() as int) =~= s.skip(i + p.len()));
}

/// `s` with every occurrence of the non-empty pattern `pat` replaced by `rep`.
pub fn replace_all(s: &str, pat: &str, rep: &str) -> (out: String)
    requires
        pat@.len() > 0,
    ensures
        out@ == replace_all_seq(s@, pat@, rep@),
{
    let cs = chars_of(s);
    let ps = chars_of(pat);
    let n = cs.len();
    let m = ps.len();
    let mut out = String::new();
    let mut start: usize = 0;
    let mut i: usize = 0;
    assert(s@.skip(0) =~= s@);
    while m <= n && i <= n - m
        invariant
            cs@ == s@,
            ps@ == pat@,
            n == s@.len(),
            m == pat@.len(),
            m > 0,
            start <= i <= n,
            out@ + s@.subrange(start as int, i as int) + replace_all_seq(s@.skip(i as int), pat@, rep@)
                == replace_all_seq(s@, pat@, rep@),
        decreases n - i,
    {
        if occurs_at_exec(&cs, &ps, i) {
            proof {
                lemma_replace_step_hit(s@, pat@, rep@, i as int);
            }
            let seg = s.substring_char(start, i);
            out.append(seg);
            out.append(rep);
            i = i + m;
            start = i;
            assert(s@.subrange(start as int, i as int) =~= Seq::<char>::empty());
        } else {
            proof {
                lemma_replace_step_miss(s@, pat@, rep@, i as int);
                assert(s@.subrange(start as int, i + 1) =~= s@.subrange(start as int, i as int)
                    + seq![s@[i as int]]);
            }
            i = i + 1;
        }
    }
    assert(replace_all_seq(s@.skip(i as int), pat@, rep@) == s@.skip(i as int));
    assert(s@.subrange(start as int, i as int) + s@.skip(i as int) =~= s@.subrange(
        start as int,
        n as int,
    ));
    let seg = s.substring_char(start, n);
    out.append(seg);
    out
}

/// The decimal digit character for `d < 10`.
pub open spec fn digit_char(d: nat) -> char {
    if d == 0 {
        '0'
    } else if d == 1 {
        '1'
    } else if d == 2 {
        '2'
    } else if d == 3 {
        '3'
    } else if d == 4 {
        '4'
    } else if d == 5 {
        '5'
    } else if d == 6 {
        '6'
    } else if d == 7 {
        '7'
    } else if d == 8 {
        '8'
    } else {
        '9'
    }
}

/// The decimal numeral of `n`, without leading zeros.
pub open spec fn decimal(n: nat) -> Seq<char>
    decreases n,
{
    if n < 10 {
        seq![digit_char(n)]
    } else {
        decimal(n / 10).push(digit_char(n % 10))
    }
}

fn digit_str(d: u64) -> (s: &'static str)
    requires
        d < 10,
    ensures
        s@ == seq![digit_char(d as nat)],
{
    proof {
        reveal_strlit("0");
        reveal_strlit("1");
        reveal_strlit("2");
        reveal_strlit("3");
        reveal_strlit("4");
        reveal_strlit("5");
        reveal_strlit("6");
        reveal_strlit("7");
        reveal_strlit("8");
        reveal_strlit("9");
    }
    if d == 0 {
        "0"
    } else if d == 1 {
        "1"
    } else if d == 2 {
        "2"
    } else if d == 3 {
        "3"
    } else if d == 4 {
        "4"
    } else if d == 5 {
        "5"
    } else if d == 6 {
        "6"
    } else if d == 7 {
        "7"
    } else if d == 8 {
        "8"
    } else {
        "9"
    }
}

/// The decimal numeral of `n`, as `to_string` prints an unsigned integer.
pub fn u64_to_decimal(n: u64) -> (s: String)
    ensures
        s@ == decimal(n as nat),
    decreases n,
{
    if n < 10 {
        let mut s = String::new();
        s.append(digit_str(n));
        assert(s@ =~= decimal(n as nat));
        s
    } else {
        let mut s = u64_to_decimal(n / 10);
        s.append(digit_str(n % 10));
        assert(s@ =~= decimal(n as nat));
        s
    }
}

/// `s` followed by the characters of `t`.
pub fn push_str(s: &mut String, t: &str)
    ensures
        final(s)@ == old(s)@ + t@,
{
    s.append(t);
}

/// `a` sorts strictly before `b`: the order of `String`'s `Ord`, which
/// compares character codes from the front, a proper prefix first.
pub open spec fn str_lt(a: Seq<char>, b: Seq<char>) -> bool
    decreases a.len(),
{
    if a.len() == 0 {
        b.len() > 0
    } else if b.len() == 0 {
        false
    } else if a[0] != b[0] {
        (a[0] as int) < (b[0] as int)
    } else {
        str_lt(a.drop_first(), b.drop_first())
    }
}

pub proof fn lemma_str_lt_irreflexive(a: Seq<char>)
    ensures
        !str_lt(a, a),
    decreases a.len(),
{
    if a.len() > 0 {
        lemma_str_lt_irreflexive(a.drop_first());
    }
}

pub proof fn lemma_str_lt_transitive(a: Seq<char>, b: Seq<char>, c: Seq<char>)
    requires
        str_lt(a, b),
        str_lt(b, c),
    ensures
        str_lt(a, c),
    decreases a.len(),
{
    if a.len() > 0 && b.len() > 0 && c.len() > 0 && a[0] == b[0] && b[0] == c[0] {
        lemma_str_lt_transitive(a.drop_first(), b.drop_first(), c.drop_first());
    }
}

pub proof fn lemma_str_lt_total(a: Seq<char>, b: Seq<char>)
    ensures
        a == b || str_lt(a, b) || str_lt(b, a),
    decreases a.len(),
{
    if a.len() > 0 && b.len() > 0 {
        if a[0] == b[0] {
            lemma_str_lt_total(a.drop_first(), b.drop_first());
            if a.drop_first() == b.drop_first() {
                assert(a =~= seq![a[0]] + a.drop_first());
                assert(b =~= seq![b[0]] + b.drop_first());
            }
        }
    } else if a.len() == 0 && b.len() == 0 {
        assert(a =~= b);
    }
}

/// `!str_lt(y, x)`: `x` sorts before `y` or equals it.
pub open spec fn str_le(x: Seq<char>, y: Seq<char>) -> bool {
    !str_lt(y, x)
}

/// Whether `a` sorts strictly before `b`.
pub fn str_less(a: &str, b: &str) -> (r: bool)
    ensures
        r == str_lt(a@, b@),
{
    let x = chars_of(a);
    let y = chars_of(b);
    let mut i: usize = 0;
    assert(a@.skip(0) =~= a@);
    assert(b@.skip(0) =~= b@);
    while i < x.len() && i < y.len()
        invariant
            x@ == a@,
            y@ == b@,
            i <= x@.len(),
            i <= y@.len(),
            str_lt(a@, b@) == str_lt(a@.skip(i as int), b@.skip(i as int)),
        decreases x@.len() - i,
    {
        let ghost sa = a@.skip(i as int);
        let ghost sb = b@.skip(i as int);
        assert(sa[0] == x@[i as int] && sb[0] == y@[i as int]);
        if x[i] != y[i] {
            return x[i] < y[i];
        }
        assert(sa.drop_first() =~= a@.skip(i + 1));
        assert(sb.drop_first() =~= b@.skip(i + 1));
        i = i + 1;
    }
    y.len() > i
}

proof fn lemma_insert_keeps_sorted(before: Seq<String>, x: String, p: int)
    requires
        0 <= p <= before.len(),
        forall|i: int, j: int| 0 <= i < j < before.len() ==> str_le(before[i]@, before[j]@),
        forall|i: int| 0 <= i < p ==> !str_lt(x@, #[trigger] before[i]@),
        p < before.len() ==> str_lt(x@, before[p]@),
    ensures
        forall|i: int, j: int|
            0 <= i < j < before.insert(p, x).len() ==> str_le(
                before.insert(p, x)[i]@,
                before.insert(p, x)[j]@,
            ),
{
    let after = before.insert(p, x);
    assert forall|i: int| p <= i < before.len() implies str_lt(x@, #[trigger] before[i]@) by {
        if i > p {
            assert(str_le(before[p]@, before[i]@));
            lemma_str_lt_total(before[p]@, before[i]@);
            if str_lt(before[p]@, before[i]@) {
                lemma_str_lt_transitive(x@, before[p]@, before[i]@);
            }
        }
    }
    assert forall|i: int, j: int| 0 <= i < j < after.len() implies str_le(after[i]@, after[j]@) by {
        if j == p {
            // after[i] = before[i] with !str_lt(x, before[i]), so before[i] <= x
            assert(after[i] == before[i]);
            assert(after[j] == x);
        } else if i == p {
            assert(after[j] == before[j - 1]);
            assert(str_lt(x@, before[j - 1]@));
            if str_lt(before[j - 1]@, x@) {
                lemma_str_lt_transitive(x@, before[j - 1]@, x@);
                lemma_str_lt_irreflexive(x@);
            }
        } else if j < p {
            assert(after[i] == before[i] && after[j] == before[j]);
        } else if i < p {
            assert(after[i] == before[i] && after[j] == before[j - 1]);
        } else {
            assert(after[i] == before[i - 1] && after[j] == before[j - 1]);
        }
    }
}

/// Every element of `a` occurs in `b`.
pub open spec fn all_in<T>(a: Seq<T>, b: Seq<T>) -> bool {
    forall|i: int| 0 <= i < a.len() ==> #[trigger] b.contains(a[i])
}

pub proof fn lemma_insert_membership<T>(before: Seq<T>, x: T, p: int, v: Seq<T>, k: int)
    requires
        0 <= p <= before.len(),
        0 <= k < v.len(),
        v[k] == x,
        all_in(v.take(k), before),
        all_in(before, v.take(k)),
    ensures
        all_in(v.take(k + 1), before.insert(p, x)),
        all_in(before.insert(p, x), v.take(k + 1)),
{
    let after = before.insert(p, x);
    assert forall|i: int| 0 <= i < k + 1 implies #[trigger] after.contains(v.take(k + 1)[i]) by {
        if i == k {
            assert(after[p] == x);
        } else {
            assert(v.take(k)[i] == v.take(k + 1)[i]);
            assert(before.contains(v.take(k)[i]));
            let j = choose|j: int| 0 <= j < before.len() && before[j] == v.take(k)[i];
            if j < p {
                assert(after[j] == before[j]);
            } else {
                assert(after[j + 1] == before[j]);
            }
        }
    }
    assert forall|j: int| 0 <= j < after.len() implies #[trigger] v.take(k + 1).contains(after[j]) by {
        if j == p {
            assert(v.take(k + 1)[k] == x);
        } else {
            let b = if j < p {
                before[j]
            } else {
                before[j - 1]
            };
            assert(after[j] == b);
            assert(before.contains(b));
            assert(v.take(k).contains(b));
            let i = choose|i: int| 0 <= i < k && v.take(k)[i] == b;
            assert(v.take(k + 1)[i] == b);
        }
    }
}

/// The strings of `v` in ascending `String` order.
pub fn sort_strings(v: Vec<String>) -> (out: Vec<String>)
    ensures
        out@.len() == v@.len(),
        forall|i: int, j: int| 0 <= i < j < out@.len() ==> str_le(out@[i]@, out@[j]@),
        all_in(v@, out@),
        all_in(out@, v@),
{
    let mut out: Vec<String> = Vec::new();
    let mut k: usize = 0;
    assert(v@.take(0) =~= Seq::<String>::empty());
    while k < v.len()
        invariant
            k <= v@.len(),
            out@.len() == k,
            forall|i: int, j: int| 0 <= i < j < out@.len() ==> str_le(out@[i]@, out@[j]@),
            all_in(v@.take(k as int), out@),
            all_in(out@, v@.take(k as int)),
        decreases v@.len() - k,
    {
        let x = v[k].clone();
        let mut p: usize = 0;
        while p < out.len() && !str_less(x.as_str(), out[p].as_str())
            invariant
                p <= out@.len(),
                forall|i: int| 0 <= i < p ==> !str_lt(x@, #[trigger] out@[i]@),
            decreases out@.len() - p,
        {
            p = p + 1;
        }
        proof {
            lemma_insert_keeps_sorted(out@, x, p as int);
            lemma_insert_membership(out@, x, p as int, v@, k as int);
        }
        out.insert(p, x);
        k = k + 1;
    }
    assert(v@.take(v@.len() as int) =~= v@);
    out
}

} // verus!
