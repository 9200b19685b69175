//! The rule corpus gathered from block lists: a set of rule lines, kept in
//! one canonical order so that the same rules always make the same corpus.
use vstd::prelude::*;
use crate::engine::{filter_line_accepted, line_accepted, match_of, CompiledEngine};
use crate::ordering::{
    line_less, line_lt, lemma_line_lt_asymmetric, lemma_line_lt_irreflexive, lemma_line_lt_total,
    lemma_line_lt_transitive,
};

verus! {

broadcast use vstd::seq_lib::group_to_multiset_ensures;

/// Every line comes strictly before the lines after it.
pub open spec fn strictly_sorted(s: Seq<Seq<char>>) -> bool {
    forall|i: int, j: int| 0 <= i < j < s.len() ==> #[trigger] line_lt(s[i], s[j])
}

/// No line comes strictly before a line ahead of it.
pub open spec fn non_decreasing(s: Seq<Seq<char>>) -> bool {
    forall|i: int, j: int| 0 <= i < j < s.len() ==> !#[trigger] line_lt(s[j], s[i])
}

/// The lines of `lines` that parse as rules.
pub open spec fn accepted_lines(lines: Seq<Seq<char>>) -> Set<Seq<char>> {
    lines.to_set().filter(|l: Seq<char>| filter_line_accepted(l))
}

/// Relies on slice::sort, ordering by `str`'s `Ord`, which is lexicographic
/// by bytes: the lines come back permuted into non-decreasing order.
#[verifier::external_body]
fn sort_lines(v: &mut Vec<String>)
    ensures
        final(v).deep_view().to_multiset() == old(v).deep_view().to_multiset(),
        non_decreasing(final(v).deep_view()),
{
    v.sort();
}

proof fn lemma_push_contains(s: Seq<Seq<char>>, x: Seq<char>)
    ensures
        forall|y: Seq<char>| #[trigger] s.push(x).contains(y) <==> (s.contains(y) || y == x),
{
    assert forall|y: Seq<char>| #[trigger] s.push(x).contains(y) implies (s.contains(y) || y == x) by {
        let p = choose|p: int| 0 <= p < s.len() + 1 && s.push(x)[p] == y;
        if p < s.len() {
            assert(s[p] == y);
        }
    }
    assert forall|y: Seq<char>| s.contains(y) implies #[trigger] s.push(x).contains(y) by {
        let p = choose|p: int| 0 <= p < s.len() && s[p] == y;
        assert(s.push(x)[p] == y);
    }
    assert(s.push(x)[s.len() as int] == x);
}

/// Appending a line greater than the last keeps a corpus strictly sorted.
proof fn lemma_push_sorted(s: Seq<Seq<char>>, x: Seq<char>)
    requires
        strictly_sorted(s),
        s.len() > 0 ==> line_lt(s.last(), x),
    ensures
        strictly_sorted(s.push(x)),
{
    let t = s.push(x);
    assert forall|i: int, j: int| 0 <= i < j < t.len() implies #[trigger] line_lt(t[i], t[j]) by {
        if j == s.len() && i < s.len() - 1 {
            lemma_line_lt_transitive(s[i], s.last(), x);
        }
    }
}

/// A line that is at most every line ahead of a non-decreasing position is
/// at most each of them.
proof fn lemma_le_chain(x: Seq<char>, y: Seq<char>, z: Seq<char>)
    requires
        !line_lt(y, x),
        !line_lt(z, y),
    ensures
        !line_lt(z, x),
{
    if line_lt(z, x) {
        if y == z {
        } else if y == x {
        } else {
            lemma_line_lt_total(y, z);
            lemma_line_lt_total(x, y);
            lemma_line_lt_transitive(y, z, x);
        }
    }
}

/// Merges a strictly sorted corpus with a non-decreasing batch into a strictly
/// sorted corpus holding the lines of both.
fn merge_sorted(a: &Vec<String>, b: &Vec<String>) -> (r: Vec<String>)
    requires
        strictly_sorted(a.deep_view()),
        non_decreasing(b.deep_view()),
    ensures
        strictly_sorted(r.deep_view()),
        forall|x: Seq<char>|
            r.deep_view().contains(x) <==> (a.deep_view().contains(x) || b.deep_view().contains(x)),
{
    let ghost sa = a.deep_view();
    let ghost sb = b.deep_view();
    let mut out: Vec<String> = Vec::new();
    let mut i: usize = 0;
    let mut j: usize = 0;
    while i < a.len() || j < b.len()
        invariant
            i <= sa.len(),
            j <= sb.len(),
            sa == a.deep_view(),
            sb == b.deep_view(),
            strictly_sorted(sa),
            non_decreasing(sb),
            strictly_sorted(out.deep_view()),
            forall|x: Seq<char>|
                out.deep_view().contains(x) <==> (sa.subrange(0, i as int).contains(x)
                    || sb.subrange(0, j as int).contains(x)),
            out.len() > 0 ==> forall|k: int|
                i <= k < sa.len() ==> line_lt(out.deep_view().last(), #[trigger] sa[k]),
            out.len() > 0 ==> forall|k: int|
                j <= k < sb.len() ==> !line_lt(#[trigger] sb[k], out.deep_view().last()),
        decreases sa.len() - i + sb.len() - j,
    {
        let ghost old_out = out.deep_view();
        let take_a = j >= b.len() || (i < a.len() && !line_less(b[j].as_str(), a[i].as_str()));
        if take_a {
            let s = a[i].clone();
            let ghost x = sa[i as int];
            out.push(s);
            assert(out.deep_view() =~= old_out.push(x));
            proof {
                lemma_push_sorted(old_out, x);
                lemma_push_contains(old_out, x);
                lemma_push_contains(sa.subrange(0, i as int), x);
            }
            assert forall|k: int| i + 1 <= k < sa.len() implies line_lt(x, #[trigger] sa[k]) by {}
            assert forall|k: int| j <= k < sb.len() implies !line_lt(#[trigger] sb[k], x) by {
                if k > j {
                    lemma_le_chain(x, sb[j as int], sb[k]);
                }
            }
            assert(sa.subrange(0, i + 1) =~= sa.subrange(0, i as int).push(x));
            i = i + 1;
        } else {
            let ghost x = sb[j as int];
            proof {
                if i < sa.len() {
                    assert forall|k: int| i <= k < sa.len() implies line_lt(x, #[trigger] sa[k]) by {
                        if k > i {
                            lemma_line_lt_transitive(x, sa[i as int], sa[k]);
                        }
                    }
                }
            }
            let fresh = out.len() == 0 || line_less(out[out.len() - 1].as_str(), b[j].as_str());
            if fresh {
                let s = b[j].clone();
                out.push(s);
                assert(out.deep_view() =~= old_out.push(x));
                proof {
                    lemma_push_sorted(old_out, x);
                    lemma_push_contains(old_out, x);
                }
            } else {
                proof {
                    let last = old_out.last();
                    if last != x {
                        lemma_line_lt_total(last, x);
                    }
                    assert(old_out[old_out.len() - 1] == last);
                    assert(old_out.contains(x));
                }
            }
            assert forall|k: int| j + 1 <= k < sb.len() implies !line_lt(#[trigger] sb[k], x) by {}
            assert(sb.subrange(0, j + 1) =~= sb.subrange(0, j as int).push(x));
            proof {
                lemma_push_contains(sb.subrange(0, j as int), x);
            }
            j = j + 1;
        }
    }
    assert(sa.subrange(0, sa.len() as int) =~= sa);
    assert(sb.subrange(0, sb.len() as int) =~= sb);
    out
}

/// Two strictly sorted corpora with the same lines are the same sequence.
pub proof fn lemma_sorted_unique(s1: Seq<Seq<char>>, s2: Seq<Seq<char>>)
    requires
        strictly_sorted(s1),
        strictly_sorted(s2),
        s1.to_set() == s2.to_set(),
    ensures
        s1 == s2,
    decreases s1.len(),
{
    if s1.len() == 0 {
        if s2.len() > 0 {
            assert(s2.to_set().contains(s2[0]));
        }
        assert(s1 =~= s2);
    } else {
        assert(s1.to_set().contains(s1[0]));
        assert(s2.len() > 0);
        assert(s2.to_set().contains(s2[0]));
        let k = choose|k: int| 0 <= k < s2.len() && s2[k] == s1[0];
        let m = choose|m: int| 0 <= m < s1.len() && s1[m] == s2[0];
        if s1[0] != s2[0] {
            assert(line_lt(s2[0], s2[k]));
            assert(line_lt(s1[0], s1[m]));
            lemma_line_lt_asymmetric(s1[0], s2[0]);
        }
        let t1 = s1.drop_first();
        let t2 = s2.drop_first();
        assert forall|x: Seq<char>| t1.to_set().contains(x) == t2.to_set().contains(x) by {
            if t1.contains(x) {
                let p = choose|p: int| 0 <= p < t1.len() && t1[p] == x;
                assert(line_lt(s1[0], s1[p + 1]));
                lemma_line_lt_irreflexive(x);
                assert(s2.to_set().contains(x));
                let q = choose|q: int| 0 <= q < s2.len() && s2[q] == x;
                assert(q != 0);
                assert(t2[q - 1] == x);
            }
            if t2.contains(x) {
                let p = choose|p: int| 0 <= p < t2.len() && t2[p] == x;
                assert(line_lt(s2[0], s2[p + 1]));
                lemma_line_lt_irreflexive(x);
                assert(s1.to_set().contains(x));
                let q = choose|q: int| 0 <= q < s1.len() && s1[q] == x;
                assert(q != 0);
                assert(t1[q - 1] == x);
            }
        }
        assert(t1.to_set() =~= t2.to_set());
        lemma_sorted_unique(t1, t2);
        assert forall|i: int| 0 <= i < s1.len() implies s1[i] == s2[i] by {
            if i > 0 {
                assert(s1[i] == t1[i - 1]);
                assert(s2[i] == t2[i - 1]);
            }
        }
        assert(s1 =~= s2);
    }
}

/// The rule corpus: the distinct lines that parse as rules, in byte order.
pub struct FilterSet {
    rules: Vec<String>,
}

impl View for FilterSet {
    type V = Seq<Seq<char>>;

    closed spec fn view(&self) -> Seq<Seq<char>> {
        self.rules.deep_view()
    }
}

impl FilterSet {
    /// The corpus is in canonical order and holds only lines that parse.
    pub open spec fn wf(&self) -> bool {
        strictly_sorted(self@) && forall|i: int|
            0 <= i < self@.len() ==> filter_line_accepted(#[trigger] self@[i])
    }

    /// The set of rule lines in the corpus.
    pub open spec fn rule_set(&self) -> Set<Seq<char>> {
        self@.to_set()
    }

    /// An empty corpus.
    pub fn new() -> (r: FilterSet)
        ensures
            r.wf(),
            r@ == Seq::<Seq<char>>::empty(),
    {
        let r = FilterSet { rules: Vec::new() };
        assert(r@ =~= Seq::<Seq<char>>::empty());
        r
    }

    pub fn len(&self) -> (r: usize)
        ensures
            r == self@.len(),
    {
        self.rules.len()
    }

    /// The rule lines, in canonical order.
    pub fn rules(&self) -> (r: &Vec<String>)
        ensures
            r.deep_view() == self@,
    {
        &self.rules
    }

    /// Adds the lines of a list: each line that parses joins the corpus, a
    /// line already there or one that does not parse leaves it as it was.
    pub fn add_filters(&mut self, lines: &Vec<String>)
        requires
            old(self).wf(),
        ensures
            final(self).wf(),
            final(self).rule_set() == old(self).rule_set() + accepted_lines(lines.deep_view()),
    {
        let ghost sl = lines.deep_view();
        let mut batch: Vec<String> = Vec::new();
        let mut i: usize = 0;
        while i < lines.len()
            invariant
                i <= sl.len(),
                sl == lines.deep_view(),
                forall|k: int| 0 <= k < batch.deep_view().len() ==> filter_line_accepted(#[trigger] batch.deep_view()[k]),
                forall|x: Seq<char>|
                    batch.deep_view().contains(x) <==> (sl.subrange(0, i as int).contains(x) && filter_line_accepted(x)),
            decreases sl.len() - i,
        {
            let ghost old_batch = batch.deep_view();
            if line_accepted(lines[i].as_str()) {
                let s = lines[i].clone();
                batch.push(s);
                assert(batch.deep_view() =~= old_batch.push(sl[i as int]));
                proof {
                    lemma_push_contains(old_batch, sl[i as int]);
                }
            }
            assert(sl.subrange(0, i + 1) =~= sl.subrange(0, i as int).push(sl[i as int]));
            proof {
                lemma_push_contains(sl.subrange(0, i as int), sl[i as int]);
            }
            i = i + 1;
        }
        assert(sl.subrange(0, sl.len() as int) =~= sl);
        let ghost unsorted = batch.deep_view();
        sort_lines(&mut batch);
        proof {
            assert forall|x: Seq<char>| batch.deep_view().contains(x) <==> unsorted.contains(x) by {
                assert(batch.deep_view().to_multiset().count(x) == unsorted.to_multiset().count(x));
            }
        }
        let merged = merge_sorted(&self.rules, &batch);
        let ghost before = self@;
        self.rules = merged;
        proof {
            assert forall|k: int| 0 <= k < self@.len() implies filter_line_accepted(#[trigger] self@[k]) by {
                let x = self@[k];
                assert(self@.contains(x));
                if before.contains(x) {
                    let p = choose|p: int| 0 <= p < before.len() && before[p] == x;
                } else {
                    assert(batch.deep_view().contains(x));
                    let p = choose|p: int| 0 <= p < batch.deep_view().len() && batch.deep_view()[p] == x;
                }
            }
            assert(self.rule_set() =~= before.to_set() + accepted_lines(sl));
        }
    }

    /// Compiles the corpus into a match-ready engine; the corpus is not changed.
    pub fn compile(&self) -> (r: CompiledEngine)
        ensures
            r.rule_lines() == self@,
    {
        CompiledEngine::from_lines(self.rules.clone())
    }
}

/// Adding two lists to an empty corpus gives the same corpus in either order,
/// so the engines compiled from the two give the same outcome for every request.
pub proof fn merge_order_independent(
    a: Seq<Seq<char>>,
    b: Seq<Seq<char>>,
    f_ab: FilterSet,
    f_ba: FilterSet,
    e_ab: CompiledEngine,
    e_ba: CompiledEngine,
)
    requires
        f_ab.wf(),
        f_ba.wf(),
        f_ab.rule_set() == Set::<Seq<char>>::empty() + accepted_lines(a) + accepted_lines(b),
        f_ba.rule_set() == Set::<Seq<char>>::empty() + accepted_lines(b) + accepted_lines(a),
        e_ab.rule_lines() == f_ab@,
        e_ba.rule_lines() == f_ba@,
    ensures
        f_ab@ == f_ba@,
        forall|url: Seq<char>, source: Seq<char>, rtype: Seq<char>|
            #[trigger] match_of(e_ab.rule_lines(), url, source, rtype) == match_of(
                e_ba.rule_lines(),
                url,
                source,
                rtype,
            ),
{
    assert(f_ab.rule_set() =~= f_ba.rule_set());
    lemma_sorted_unique(f_ab@, f_ba@);
}

/// Compiling the same corpus twice gives engines that give the same outcome
/// for every request.
pub proof fn compile_idempotent(f: FilterSet, e1: CompiledEngine, e2: CompiledEngine)
    requires
        e1.rule_lines() == f@,
        e2.rule_lines() == f@,
    ensures
        forall|url: Seq<char>, source: Seq<char>, rtype: Seq<char>|
            #[trigger] match_of(e1.rule_lines(), url, source, rtype) == match_of(
                e2.rule_lines(),
                url,
                source,
                rtype,
            ),
{
}

/// A line that does not parse contributes nothing: a corpus built from a list
/// holding it is the corpus built from the list without it.
pub proof fn malformed_line_ignored(
    lines: Seq<Seq<char>>,
    i: int,
    with_line: FilterSet,
    without_line: FilterSet,
)
    requires
        0 <= i < lines.len(),
        !filter_line_accepted(lines[i]),
        with_line.wf(),
        without_line.wf(),
        with_line.rule_set() == Set::<Seq<char>>::empty() + accepted_lines(lines),
        without_line.rule_set() == Set::<Seq<char>>::empty() + accepted_lines(lines.remove(i)),
    ensures
        accepted_lines(lines) == accepted_lines(lines.remove(i)),
        with_line@ == without_line@,
{
    let rest = lines.remove(i);
    assert forall|x: Seq<char>| accepted_lines(lines).contains(x) == accepted_lines(rest).contains(x) by {
        if accepted_lines(lines).contains(x) {
            let p = choose|p: int| 0 <= p < lines.len() && lines[p] == x;
            assert(p != i);
            if p < i {
                assert(rest[p] == x);
            } else {
                assert(rest[p - 1] == x);
            }
        }
        if accepted_lines(rest).contains(x) {
            let p = choose|p: int| 0 <= p < rest.len() && rest[p] == x;
            if p < i {
                assert(lines[p] == x);
            } else {
                assert(lines[p + 1] == x);
            }
        }
    }
    assert(accepted_lines(lines) =~= accepted_lines(rest));
    assert(with_line.rule_set() =~= without_line.rule_set());
    lemma_sorted_unique(with_line@, without_line@);
}

} // verus!
