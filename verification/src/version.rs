//! Dotted-numeric version comparison.
//!
//! A version string is a sequence of components separated by dots.  Each
//! component denotes a number, read from its characters as decimal digits
//! (any character that is not a digit counts as zero).  Versions compare
//! componentwise from the left; when one version runs out of components
//! first, it is the smaller one, so `"1.2"` is below `"1.2.1"`.

use vstd::prelude::*;

use crate::strutil::{chars_vec, split_chars, split_on, str_views};

verus! {

/// Value of one character read as a decimal digit; anything that is not a
/// digit counts as zero.
pub open spec fn digit_val(c: char) -> nat {
    match c {
        '0' => 0,
        '1' => 1,
        '2' => 2,
        '3' => 3,
        '4' => 4,
        '5' => 5,
        '6' => 6,
        '7' => 7,
        '8' => 8,
        '9' => 9,
        _ => 0,
    }
}

fn digit(c: char) -> (r: u8)
    ensures
        r as nat == digit_val(c),
{
    match c {
        '0' => 0u8,
        '1' => 1u8,
        '2' => 2u8,
        '3' => 3u8,
        '4' => 4u8,
        '5' => 5u8,
        '6' => 6u8,
        '7' => 7u8,
        '8' => 8u8,
        '9' => 9u8,
        _ => 0u8,
    }
}

/// The number a component denotes, most significant character first.
pub open spec fn num_val(s: Seq<char>) -> nat
    decreases s.len(),
{
    if s.len() == 0 {
        0
    } else {
        num_val(s.drop_last()) * 10 + digit_val(s.last())
    }
}

/// The numbers denoted by the dot-separated components of a version string.
pub open spec fn comp_vals(s: Seq<char>) -> Seq<nat> {
    split_chars(s, '.').map_values(|c: Seq<char>| num_val(c))
}

/// Lexicographic order on component numbers, a strict prefix being smaller.
pub open spec fn nats_lt(a: Seq<nat>, b: Seq<nat>) -> bool
    decreases a.len(),
{
    if a.len() == 0 {
        b.len() > 0
    } else if b.len() == 0 {
        false
    } else if a[0] != b[0] {
        a[0] < b[0]
    } else {
        nats_lt(a.drop_first(), b.drop_first())
    }
}

/// `a` is strictly below `b` under dotted-numeric comparison.
pub open spec fn spec_version_lt(a: Seq<char>, b: Seq<char>) -> bool {
    nats_lt(comp_vals(a), comp_vals(b))
}

spec fn pow10(n: nat) -> nat
    decreases n,
{
    if n == 0 {
        1
    } else {
        10 * pow10((n - 1) as nat)
    }
}

proof fn lemma_pow10_mono(m: nat, n: nat)
    requires
        m <= n,
    ensures
        pow10(m) <= pow10(n),
    decreases n,
{
    if m < n {
        lemma_pow10_mono(m, (n - 1) as nat);
    }
}

proof fn lemma_num_val_bound(s: Seq<char>)
    ensures
        num_val(s) < pow10(s.len()),
    decreases s.len(),
{
    if s.len() > 0 {
        lemma_num_val_bound(s.drop_last());
    }
}

proof fn lemma_num_val_lower(s: Seq<char>)
    requires
        s.len() > 0,
        digit_val(s[0]) > 0,
    ensures
        num_val(s) >= pow10((s.len() - 1) as nat),
    decreases s.len(),
{
    if s.len() > 1 {
        assert(s.drop_last()[0] == s[0]);
        lemma_num_val_lower(s.drop_last());
    }
}

proof fn lemma_num_val_strip(s: Seq<char>)
    requires
        s.len() > 0,
        digit_val(s[0]) == 0,
    ensures
        num_val(s) == num_val(s.drop_first()),
    decreases s.len(),
{
    if s.len() == 1 {
        assert(s.drop_first() =~= Seq::<char>::empty());
        assert(s.drop_last() =~= Seq::<char>::empty());
        assert(num_val(s) == num_val(s.drop_last()) * 10 + digit_val(s.last()));
        assert(digit_val(s.last()) == digit_val(s[0]));
    } else {
        assert(s.drop_last()[0] == s[0]);
        lemma_num_val_strip(s.drop_last());
        assert(s.drop_last().drop_first() =~= s.drop_first().drop_last());
        assert(s.drop_first().last() == s.last());
        assert(num_val(s.drop_first()) == num_val(s.drop_first().drop_last()) * 10 + digit_val(
            s.drop_first().last(),
        ));
        assert(num_val(s) == num_val(s.drop_last()) * 10 + digit_val(s.last()));
    }
}

proof fn lemma_num_val_eq(a: Seq<char>, b: Seq<char>)
    requires
        a.len() == b.len(),
        forall|k: int| 0 <= k < a.len() ==> digit_val(a[k]) == digit_val(b[k]),
    ensures
        num_val(a) == num_val(b),
    decreases a.len(),
{
    if a.len() > 0 {
        lemma_num_val_eq(a.drop_last(), b.drop_last());
    }
}

proof fn lemma_num_val_lex(a: Seq<char>, b: Seq<char>, k: int)
    requires
        a.len() == b.len(),
        0 <= k < a.len(),
        forall|m: int| 0 <= m < k ==> digit_val(a[m]) == digit_val(b[m]),
        digit_val(a[k]) < digit_val(b[k]),
    ensures
        num_val(a) < num_val(b),
    decreases a.len(),
{
    if k == a.len() - 1 {
        lemma_num_val_eq(a.drop_last(), b.drop_last());
    } else {
        lemma_num_val_lex(a.drop_last(), b.drop_last(), k);
        assert(digit_val(a.last()) <= 9);
    }
}

/// Compare the numbers denoted by two components: `-1`, `0` or `1` as the
/// first is below, equal to or above the second.
fn comp_cmp(x: &str, y: &str) -> (r: i8)
    ensures
        r == -1 || r == 0 || r == 1,
        (r == -1) <==> num_val(x@) < num_val(y@),
        (r == 0) <==> num_val(x@) == num_val(y@),
{
    let xs = chars_vec(x);
    let ys = chars_vec(y);
    proof {
        assert(x@.skip(0) =~= x@);
        assert(y@.skip(0) =~= y@);
    }
    let mut i: usize = 0;
    while i < xs.len() && digit(xs[i]) == 0
        invariant
            i <= xs.len(),
            xs@ == x@,
            num_val(x@.skip(i as int)) == num_val(x@),
        decreases xs.len() - i,
    {
        proof {
            lemma_num_val_strip(x@.skip(i as int));
            assert(x@.skip(i as int).drop_first() =~= x@.skip(i as int + 1));
        }
        i += 1;
    }
    let mut j: usize = 0;
    while j < ys.len() && digit(ys[j]) == 0
        invariant
            j <= ys.len(),
            ys@ == y@,
            num_val(y@.skip(j as int)) == num_val(y@),
        decreases ys.len() - j,
    {
        proof {
            lemma_num_val_strip(y@.skip(j as int));
            assert(y@.skip(j as int).drop_first() =~= y@.skip(j as int + 1));
        }
        j += 1;
    }
    let lx = xs.len() - i;
    let ly = ys.len() - j;
    if lx < ly {
        proof {
            lemma_num_val_bound(x@.skip(i as int));
            lemma_num_val_lower(y@.skip(j as int));
            lemma_pow10_mono(lx as nat, (ly - 1) as nat);
        }
        return -1;
    }
    if ly < lx {
        proof {
            lemma_num_val_bound(y@.skip(j as int));
            lemma_num_val_lower(x@.skip(i as int));
            lemma_pow10_mono(ly as nat, (lx - 1) as nat);
        }
        return 1;
    }
    let mut k: usize = 0;
    while k < lx
        invariant
            k <= lx,
            lx == ly,
            i + lx == xs.len(),
            j + ly == ys.len(),
            xs@ == x@,
            ys@ == y@,
            num_val(x@.skip(i as int)) == num_val(x@),
            num_val(y@.skip(j as int)) == num_val(y@),
            forall|m: int|
                0 <= m < k ==> digit_val(x@.skip(i as int)[m]) == digit_val(y@.skip(j as int)[m]),
        decreases lx - k,
    {
        let dx = digit(xs[i + k]);
        let dy = digit(ys[j + k]);
        if dx < dy {
            proof {
                lemma_num_val_lex(x@.skip(i as int), y@.skip(j as int), k as int);
            }
            return -1;
        }
        if dy < dx {
            proof {
                lemma_num_val_lex(y@.skip(j as int), x@.skip(i as int), k as int);
            }
            return 1;
        }
        k += 1;
    }
    proof {
        lemma_num_val_eq(x@.skip(i as int), y@.skip(j as int));
    }
    0
}

/// `a` is strictly below `b` under dotted-numeric comparison: components are
/// compared numerically from the left, and a version that is a strict prefix
/// of a longer one is the smaller.
pub fn version_lt(a: &str, b: &str) -> (r: bool)
    ensures
        r == spec_version_lt(a@, b@),
{
    let ac = split_on(a, '.');
    let bc = split_on(b, '.');
    let ghost va = comp_vals(a@);
    let ghost vb = comp_vals(b@);
    proof {
        assert(va.len() == ac@.len() && vb.len() == bc@.len());
        assert(forall|m: int| 0 <= m < va.len() ==> va[m] == num_val(#[trigger] ac@[m]@));
        assert(forall|m: int| 0 <= m < vb.len() ==> vb[m] == num_val(#[trigger] bc@[m]@));
        assert(va.skip(0) =~= va);
        assert(vb.skip(0) =~= vb);
    }
    let mut i: usize = 0;
    while i < ac.len() && i < bc.len()
        invariant
            i <= ac.len(),
            i <= bc.len(),
            va == comp_vals(a@),
            vb == comp_vals(b@),
            va.len() == ac@.len(),
            vb.len() == bc@.len(),
            forall|m: int| 0 <= m < va.len() ==> va[m] == num_val(#[trigger] ac@[m]@),
            forall|m: int| 0 <= m < vb.len() ==> vb[m] == num_val(#[trigger] bc@[m]@),
            nats_lt(va, vb) == nats_lt(va.skip(i as int), vb.skip(i as int)),
        decreases ac.len() - i,
    {
        let c = comp_cmp(ac[i].as_str(), bc[i].as_str());
        proof {
            assert(va.skip(i as int)[0] == va[i as int]);
            assert(vb.skip(i as int)[0] == vb[i as int]);
        }
        if c == -1 {
            return true;
        }
        if c == 1 {
            return false;
        }
        proof {
            assert(va.skip(i as int).drop_first() =~= va.skip(i as int + 1));
            assert(vb.skip(i as int).drop_first() =~= vb.skip(i as int + 1));
        }
        i += 1;
    }
    proof {
        if i == ac.len() {
            assert(va.skip(i as int) =~= Seq::<nat>::empty());
        }
        if i == bc.len() {
            assert(vb.skip(i as int) =~= Seq::<nat>::empty());
        }
    }
    ac.len() < bc.len()
}


/// Strict dotted-numeric order is transitive.
pub proof fn lemma_nats_lt_trans(a: Seq<nat>, b: Seq<nat>, c: Seq<nat>)
    requires
        nats_lt(a, b),
        nats_lt(b, c),
    ensures
        nats_lt(a, c),
    decreases a.len(),
{
    if a.len() == 0 {
    } else {
        if a[0] == b[0] && b[0] == c[0] {
            lemma_nats_lt_trans(a.drop_first(), b.drop_first(), c.drop_first());
        }
    }
}

/// Strict dotted-numeric order on version strings is transitive.
pub proof fn lemma_version_lt_trans(a: Seq<char>, b: Seq<char>, c: Seq<char>)
    requires
        spec_version_lt(a, b),
        spec_version_lt(b, c),
    ensures
        spec_version_lt(a, c),
{
    lemma_nats_lt_trans(comp_vals(a), comp_vals(b), comp_vals(c));
}


/// Strict dotted-numeric order is irreflexive.
pub proof fn lemma_nats_lt_irrefl(a: Seq<nat>)
    ensures
        !nats_lt(a, a),
    decreases a.len(),
{
    if a.len() > 0 {
        lemma_nats_lt_irrefl(a.drop_first());
    }
}

/// No version string lies strictly below itself.
pub proof fn lemma_version_lt_irrefl(a: Seq<char>)
    ensures
        !spec_version_lt(a, a),
{
    lemma_nats_lt_irrefl(comp_vals(a));
}

} // verus!
