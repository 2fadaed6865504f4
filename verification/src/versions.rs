use vstd::prelude::*;

use crate::config::InstalledVersion;

verus! {

broadcast use {vstd::seq_lib::group_to_multiset_ensures, vstd::multiset::group_multiset_axioms};

/// Whether `semver::Version::parse` accepts the text.
pub uninterp spec fn semver_valid(text: Seq<char>) -> bool;

/// How `semver::Version`'s order places the version parsed from `a`
/// against the one parsed from `b`: -1, 0 or 1.
pub uninterp spec fn semver_order(a: Seq<char>, b: Seq<char>) -> int;

/// Calls `semver::Version::parse`; tells whether the text is a valid
/// semantic version (named [`semver_valid`]).
#[verifier::external_body]
fn semver_parses(text: &str) -> (r: bool)
    ensures
        r == semver_valid(text@),
{
    semver::Version::parse(text).is_ok()
}

/// Calls `Ord::cmp` on the two `semver::Version`s parsed from `a` and `b`
/// (parsing cannot fail by the precondition) and gives the ordering as -1, 0
/// or 1; named [`semver_order`]. `Version`'s order is derived and total, so
/// swapping the operands negates the answer.
#[verifier::external_body]
fn semver_compare(a: &str, b: &str) -> (r: i8)
    requires
        semver_valid(a@),
        semver_valid(b@),
    ensures
        r == semver_order(a@, b@),
        -1 <= r <= 1,
        r == -semver_order(b@, a@),
{
    let va = semver::Version::parse(a).unwrap();
    let vb = semver::Version::parse(b).unwrap();
    match va.cmp(&vb) {
        core::cmp::Ordering::Less => -1,
        core::cmp::Ordering::Equal => 0,
        core::cmp::Ordering::Greater => 1,
    }
}

/// `s` without any leading `v` (as `trim_start_matches('v')`).
pub open spec fn strip_vs(s: Seq<char>) -> Seq<char>
    decreases s.len(),
{
    if s.len() > 0 && s[0] == 'v' {
        strip_vs(s.drop_first())
    } else {
        s
    }
}

proof fn lemma_strip_vs_at(s: Seq<char>, b: int)
    requires
        0 <= b <= s.len(),
        forall|j: int| 0 <= j < b ==> s[j] == 'v',
        b == s.len() || s[b] != 'v',
    ensures
        strip_vs(s) == s.subrange(b, s.len() as int),
    decreases s.len(),
{
    if s.len() > 0 && s[0] == 'v' {
        assert(b > 0);
        lemma_strip_vs_at(s.drop_first(), b - 1);
        assert(s.drop_first().subrange(b - 1, s.len() - 1) =~= s.subrange(b, s.len() as int));
    } else {
        assert(b == 0);
        assert(s.subrange(0, s.len() as int) =~= s);
    }
}

fn strip_leading_vs(s: &str) -> (r: &str)
    ensures
        r@ == strip_vs(s@),
{
    let n = s.unicode_len();
    let mut b: usize = 0;
    while b < n && s.get_char(b) == 'v'
        invariant
            n == s@.len(),
            b <= n,
            forall|j: int| 0 <= j < b ==> s@[j] == 'v',
        decreases n - b,
    {
        b = b + 1;
    }
    proof {
        lemma_strip_vs_at(s@, b as int);
    }
    s.substring_char(b, n)
}

/// Comparison of two version strings as semantic versions (a leading `v`
/// is ignored): -1, 0 or 1, and 0 when either does not parse.
pub open spec fn version_comparison(a: Seq<char>, b: Seq<char>) -> int {
    if semver_valid(strip_vs(a)) && semver_valid(strip_vs(b)) {
        semver_order(strip_vs(a), strip_vs(b))
    } else {
        0
    }
}

/// Compare two version strings as semantic versions, ignoring leading `v`s;
/// 0 when either is not a valid version.
pub fn compare_versions(a: &str, b: &str) -> (r: i32)
    ensures
        r == version_comparison(a@, b@),
        r == -version_comparison(b@, a@),
{
    let ta = strip_leading_vs(a);
    let tb = strip_leading_vs(b);
    if semver_parses(ta) && semver_parses(tb) {
        let c = semver_compare(ta, tb);
        if c < 0 {
            -1
        } else if c > 0 {
            1
        } else {
            0
        }
    } else {
        0
    }
}

/// Lexicographic order of character sequences (the order of `str`): -1, 0
/// or 1.
pub open spec fn text_order(a: Seq<char>, b: Seq<char>) -> int
    decreases a.len(),
{
    if a.len() == 0 {
        if b.len() == 0 {
            0
        } else {
            -1
        }
    } else if b.len() == 0 {
        1
    } else if a[0] < b[0] {
        -1
    } else if a[0] > b[0] {
        1
    } else {
        text_order(a.drop_first(), b.drop_first())
    }
}

proof fn lemma_text_order_skip(a: Seq<char>, b: Seq<char>, k: int)
    requires
        0 <= k <= a.len(),
        k <= b.len(),
        forall|j: int| 0 <= j < k ==> a[j] == b[j],
    ensures
        text_order(a, b) == text_order(a.subrange(k, a.len() as int), b.subrange(k, b.len() as int)),
    decreases k,
{
    if k == 0 {
        assert(a.subrange(0, a.len() as int) =~= a);
        assert(b.subrange(0, b.len() as int) =~= b);
    } else {
        lemma_text_order_skip(a.drop_first(), b.drop_first(), k - 1);
        assert(a.drop_first().subrange(k - 1, a.len() - 1) =~= a.subrange(k, a.len() as int));
        assert(b.drop_first().subrange(k - 1, b.len() - 1) =~= b.subrange(k, b.len() as int));
    }
}

proof fn lemma_text_order_antisymmetric(a: Seq<char>, b: Seq<char>)
    ensures
        text_order(a, b) == -text_order(b, a),
        -1 <= text_order(a, b) <= 1,
    decreases a.len(),
{
    if a.len() > 0 && b.len() > 0 && a[0] == b[0] {
        lemma_text_order_antisymmetric(a.drop_first(), b.drop_first());
    }
}

/// Compare two strings character by character.
fn compare_text(a: &str, b: &str) -> (r: i8)
    ensures
        r == text_order(a@, b@),
        r == -text_order(b@, a@),
{
    proof {
        lemma_text_order_antisymmetric(a@, b@);
    }
    let na = a.unicode_len();
    let nb = b.unicode_len();
    let mut k: usize = 0;
    while k < na && k < nb && a.get_char(k) == b.get_char(k)
        invariant
            na == a@.len(),
            nb == b@.len(),
            k <= na,
            k <= nb,
            forall|j: int| 0 <= j < k ==> a@[j] == b@[j],
        decreases na - k,
    {
        k = k + 1;
    }
    proof {
        lemma_text_order_skip(a@, b@, k as int);
    }
    if k == na {
        if k == nb {
            0
        } else {
            -1
        }
    } else if k == nb {
        1
    } else if a.get_char(k) < b.get_char(k) {
        -1
    } else {
        1
    }
}

/// Where `a` goes relative to `b` in the version list: valid semantic
/// versions first, newest first; then the rest by text, last first.
/// Negative means `a` comes first.
pub open spec fn installed_order(a: Seq<char>, b: Seq<char>) -> int {
    let ta = strip_vs(a);
    let tb = strip_vs(b);
    if semver_valid(ta) && semver_valid(tb) {
        semver_order(tb, ta)
    } else if semver_valid(ta) {
        -1
    } else if semver_valid(tb) {
        1
    } else {
        text_order(b, a)
    }
}

fn compare_installed(a: &InstalledVersion, b: &InstalledVersion) -> (r: i8)
    ensures
        r == installed_order(a.version@, b.version@),
        r == -installed_order(b.version@, a.version@),
{
    let ta = strip_leading_vs(a.version.as_str());
    let tb = strip_leading_vs(b.version.as_str());
    let va = semver_parses(ta);
    let vb = semver_parses(tb);
    if va && vb {
        semver_compare(tb, ta)
    } else if va {
        -1
    } else if vb {
        1
    } else {
        compare_text(b.version.as_str(), a.version.as_str())
    }
}

/// Whether each version is placed no later than its successor.
pub open spec fn sorted_installed(s: Seq<InstalledVersion>) -> bool {
    forall|i: int| 0 <= i < s.len() - 1 ==> installed_order(#[trigger] s[i].version@, s[i + 1].version@) <= 0
}

/// `out` is `orig` rearranged by `p` (output position to input position),
/// and an entry comes before one that was earlier in the input only when
/// that one strictly belongs after it: entries that compare equal keep
/// their input order.
pub open spec fn stable_arrangement(orig: Seq<InstalledVersion>, out: Seq<InstalledVersion>, p: Seq<int>) -> bool {
    &&& p.len() == out.len()
    &&& forall|i: int| 0 <= i < p.len() ==> 0 <= #[trigger] p[i] < orig.len() && out[i] == orig[p[i]]
    &&& forall|i: int, j: int| 0 <= i < j < p.len() ==> #[trigger] p[i] != #[trigger] p[j]
    &&& forall|i: int, j: int|
        0 <= i < j < p.len() && #[trigger] p[i] > #[trigger] p[j] ==> installed_order(
            out[j].version@,
            out[i].version@,
        ) > 0
}

/// Sort installed versions for display: valid semantic versions first,
/// newest first, then the others by text in reverse. The sort is stable and
/// moves the entries only.
pub fn sort_installed_versions_semver(versions: &mut Vec<InstalledVersion>)
    ensures
        final(versions)@.to_multiset() == old(versions)@.to_multiset(),
        sorted_installed(final(versions)@),
        exists|p: Seq<int>| stable_arrangement(old(versions)@, final(versions)@, p),
{
    let mut rest: Vec<InstalledVersion> = Vec::new();
    core::mem::swap(&mut rest, versions);
    let ghost orig = rest@;
    let mut out: Vec<InstalledVersion> = Vec::new();
    let ghost mut perm: Seq<int> = Seq::empty();
    let ghost mut done: int = 0;
    proof {
        assert(orig.subrange(0, orig.len() as int) =~= orig);
    }
    while rest.len() > 0
        invariant
            out@.to_multiset().add(rest@.to_multiset()) == orig.to_multiset(),
            sorted_installed(out@),
            0 <= done <= orig.len(),
            rest@ == orig.subrange(done, orig.len() as int),
            stable_arrangement(orig, out@, perm),
            forall|i: int| 0 <= i < perm.len() ==> #[trigger] perm[i] < done,
        decreases rest@.len(),
    {
        let ghost rest0 = rest@;
        let x = rest.remove(0);
        proof {
            assert(x == orig[done]);
        }
        let mut j: usize = out.len();
        while j > 0 && compare_installed(&out[j - 1], &x) > 0
            invariant
                j <= out@.len(),
                sorted_installed(out@),
                forall|k: int| j <= k < out@.len() ==> installed_order(#[trigger] out@[k].version@, x.version@) > 0,
            decreases j,
        {
            proof {
                if j < out@.len() {
                    assert(installed_order(out@[j - 1].version@, out@[j as int].version@) <= 0);
                }
            }
            j = j - 1;
        }
        let ghost before = out@;
        let ghost pb = perm;
        proof {
            if j < out@.len() {
                let y = out@[j as int];
                assert(installed_order(y.version@, x.version@) > 0);
            }
        }
        if j < out.len() {
            let _ = compare_installed(&x, &out[j]);
        }
        out.insert(j, x);
        proof {
            let t = out@;
            assert(t.remove(j as int) =~= before);
            assert(t[j as int] == x);
            assert(t.to_multiset().count(x) > 0);
            assert(before.to_multiset() =~= t.to_multiset().remove(x));
            assert(t.to_multiset() =~= before.to_multiset().insert(x));
            assert(rest@ =~= rest0.remove(0));
            assert(rest@.to_multiset() =~= rest0.to_multiset().remove(rest0[0]));
            assert(rest0.to_multiset().count(rest0[0]) > 0);
            assert(out@.to_multiset().add(rest@.to_multiset()) =~= orig.to_multiset());
            assert forall|i: int| 0 <= i < t.len() - 1 implies installed_order(
                #[trigger] t[i].version@,
                t[i + 1].version@,
            ) <= 0 by {
                if i < j - 1 {
                    assert(t[i] == before[i] && t[i + 1] == before[i + 1]);
                } else if i == j - 1 {
                    assert(t[i] == before[i]);
                } else if i == j {
                    assert(t[i + 1] == before[j as int]);
                } else {
                    assert(t[i] == before[i - 1] && t[i + 1] == before[i]);
                }
            }
            perm = pb.insert(j as int, done);
            let np = perm;
            assert forall|i: int| 0 <= i < np.len() implies 0 <= #[trigger] np[i] < orig.len() && t[i] == orig[np[i]]
                && np[i] < done + 1 by {
                if i < j {
                    assert(np[i] == pb[i] && t[i] == before[i]);
                } else if i > j {
                    assert(np[i] == pb[i - 1] && t[i] == before[i - 1]);
                }
            }
            assert forall|a: int, b: int| 0 <= a < b < np.len() implies #[trigger] np[a] != #[trigger] np[b] by {
                if a != j && b != j {
                    let a0 = if a < j { a } else { a - 1 };
                    let b0 = if b < j { b } else { b - 1 };
                    assert(np[a] == pb[a0] && np[b] == pb[b0]);
                    assert(pb[a0] != pb[b0]);
                } else if a == j {
                    assert(np[b] == pb[b - 1]);
                    assert(pb[b - 1] < done);
                } else {
                    assert(np[a] == pb[a]);
                    assert(pb[a] < done);
                }
            }
            assert forall|a: int, b: int| 0 <= a < b < np.len() && #[trigger] np[a] > #[trigger] np[b] implies installed_order(
                t[b].version@,
                t[a].version@,
            ) > 0 by {
                if a != j && b != j {
                    let a0 = if a < j { a } else { a - 1 };
                    let b0 = if b < j { b } else { b - 1 };
                    assert(np[a] == pb[a0] && np[b] == pb[b0]);
                    assert(t[a] == before[a0] && t[b] == before[b0]);
                    assert(pb[a0] > pb[b0]);
                } else if a == j {
                    assert(t[b] == before[b - 1]);
                    assert(installed_order(before[b - 1].version@, x.version@) > 0);
                } else {
                    assert(np[a] == pb[a]);
                    assert(pb[a] < done);
                }
            }
            assert(rest@ =~= orig.subrange(done + 1, orig.len() as int));
            done = done + 1;
        }
    }
    proof {
        assert(rest@.to_multiset() =~= vstd::multiset::Multiset::empty());
        assert(out@.to_multiset().add(rest@.to_multiset()) =~= out@.to_multiset());
        assert(stable_arrangement(orig, out@, perm));
    }
    *versions = out;
}

} // verus!
