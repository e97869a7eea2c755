//! What the reports say about the findings: summaries, labels, locations.
use crate::eco_checks::{spec_label, Finding, FindingCategory, FindingView};
use crate::project_scanner::ProjectType;
use crate::text::{chars_eq, chars_of, decimal, join, join_exec, push_all, push_decimal, push_str, string_of};
use vstd::prelude::*;

verus! {

broadcast use crate::lemma_deep_view_chars;

/// The display name of a project type.
pub open spec fn project_type_name(t: ProjectType) -> Seq<char> {
    match t {
        ProjectType::Node => "Node"@,
        ProjectType::Docker => "Docker"@,
    }
}

/// The project types as the reports show them: names joined with ` + `.
pub open spec fn spec_type_line(types: Seq<ProjectType>) -> Seq<char> {
    join(Seq::new(types.len(), |i: int| project_type_name(types[i])), " + "@)
}

/// The project types as the reports show them, e.g. `Node + Docker`.
pub fn type_line(types: &Vec<ProjectType>) -> (r: String)
    ensures
        r@ == spec_type_line(types@),
{
    let mut names: Vec<Vec<char>> = Vec::new();
    let ghost want = Seq::new(types@.len(), |i: int| project_type_name(types@[i]));
    let n = types.len();
    for i in 0..n
        invariant
            n == types@.len(),
            want == Seq::new(types@.len(), |i: int| project_type_name(types@[i])),
            names.deep_view() == want.take(i as int),
    {
        let name = match types[i] {
            ProjectType::Node => chars_of("Node"),
            ProjectType::Docker => chars_of("Docker"),
        };
        crate::push_deep(&mut names, name);
        assert(names.deep_view() =~= want.take(i + 1));
    }
    assert(want.take(n as int) =~= want);
    let j = join_exec(&names, " + ");
    string_of(&j)
}

/// The one-letter icon of a category's family: Docker, Node, Artifact, Lockfile.
pub open spec fn spec_icon(c: FindingCategory) -> Seq<char> {
    match c {
        FindingCategory::DockerBaseImage | FindingCategory::DockerCache
        | FindingCategory::DockerLayerBloat | FindingCategory::DockerStructure
        | FindingCategory::DockerOrphaned => "D"@,
        FindingCategory::HeavyDependency | FindingCategory::NodePhantom
        | FindingCategory::NodeDuplicate | FindingCategory::NodeDeprecated => "N"@,
        FindingCategory::BuildArtifact => "A"@,
        FindingCategory::MissingLockfile | FindingCategory::LockfileConflict => "L"@,
    }
}

/// The one-letter icon of a category's family.
pub fn category_icon(c: FindingCategory) -> (r: &'static str)
    ensures
        r@ == spec_icon(c),
{
    match c {
        FindingCategory::DockerBaseImage | FindingCategory::DockerCache
        | FindingCategory::DockerLayerBloat | FindingCategory::DockerStructure
        | FindingCategory::DockerOrphaned => "D",
        FindingCategory::HeavyDependency | FindingCategory::NodePhantom
        | FindingCategory::NodeDuplicate | FindingCategory::NodeDeprecated => "N",
        FindingCategory::BuildArtifact => "A",
        FindingCategory::MissingLockfile | FindingCategory::LockfileConflict => "L",
    }
}

/// Where a finding points: `file:line`, `file`, or nothing.
pub open spec fn spec_location(file: Option<Seq<char>>, line: Option<usize>) -> Seq<char> {
    match (file, line) {
        (Some(f), Some(l)) => f + ":"@ + decimal(l as nat),
        (Some(f), None) => f,
        _ => seq![],
    }
}

/// Where a finding points, e.g. `Dockerfile:3`.
pub fn location(f: &Finding) -> (r: String)
    ensures
        r@ == spec_location(f.deep_view().file, f.line),
{
    match (&f.file, f.line) {
        (Some(file), Some(l)) => {
            let mut v = chars_of(file.as_str());
            push_str(&mut v, ":");
            push_decimal(&mut v, l as u64);
            string_of(&v)
        },
        (Some(file), None) => file.clone(),
        _ => String::new(),
    }
}

/// The sum of the wasted bytes of the first `n` findings.
pub open spec fn total_wasted(fs: Seq<FindingView>, n: int) -> nat
    decreases n,
{
    if n <= 0 {
        0
    } else {
        total_wasted(fs, n - 1) + fs[n - 1].wasted_bytes as nat
    }
}

pub proof fn lemma_total_wasted_monotone(fs: Seq<FindingView>, i: int, j: int)
    requires
        i <= j,
    ensures
        total_wasted(fs, i) <= total_wasted(fs, j),
    decreases j - i,
{
    if i < j {
        lemma_total_wasted_monotone(fs, i, j - 1);
    }
}

/// The total of the findings' wasted bytes.
pub fn total_wasted_bytes(findings: &Vec<Finding>) -> (r: u64)
    requires
        total_wasted(findings.deep_view(), findings@.len() as int) <= u64::MAX,
    ensures
        r == total_wasted(findings.deep_view(), findings@.len() as int),
{
    let ghost fs = findings.deep_view();
    let mut total: u64 = 0;
    let n = findings.len();
    for i in 0..n
        invariant
            n == findings@.len(),
            fs == findings.deep_view(),
            total_wasted(fs, n as int) <= u64::MAX,
            total == total_wasted(fs, i as int),
    {
        proof {
            lemma_total_wasted_monotone(fs, i + 1, n as int);
        }
        assert(fs[i as int].wasted_bytes == findings@[i as int].wasted_bytes);
        if findings[i].wasted_bytes > 0 {
            total = total + findings[i].wasted_bytes;
        }
    }
    total
}

/// Adds one finding of `label` to the per-label counts.
pub open spec fn count_add(counts: Seq<(Seq<char>, nat)>, label: Seq<char>) -> Seq<(Seq<char>, nat)> {
    let k = crate::project_scanner::key_position(counts, label, 0);
    if 0 <= k < counts.len() {
        counts.update(k, (label, counts[k].1 + 1))
    } else {
        counts.push((label, 1nat))
    }
}

/// The number of findings per category label among the first `n`, labels in
/// order of first appearance.
pub open spec fn label_counts(fs: Seq<FindingView>, n: int) -> Seq<(Seq<char>, nat)>
    decreases n,
{
    if n <= 0 {
        seq![]
    } else {
        count_add(label_counts(fs, n - 1), spec_label(fs[n - 1].category))
    }
}

pub proof fn lemma_label_counts_bound(fs: Seq<FindingView>, n: int)
    requires
        0 <= n,
    ensures
        forall|k: int|
            0 <= k < label_counts(fs, n).len() ==> #[trigger] label_counts(fs, n)[k].1 <= n,
        label_counts(fs, n).len() <= n,
    decreases n,
{
    if n > 0 {
        lemma_label_counts_bound(fs, n - 1);
        crate::project_scanner::lemma_key_position(
            label_counts(fs, n - 1),
            spec_label(fs[n - 1].category),
            0,
        );
    }
}

/// The number of findings per category label, labels in order of first
/// appearance.
pub fn category_counts(findings: &Vec<Finding>) -> (r: Vec<(String, usize)>)
    ensures
        r@.len() == label_counts(findings.deep_view(), findings@.len() as int).len(),
        forall|k: int|
            0 <= k < r@.len() ==> (#[trigger] r@[k]).0@ == label_counts(
                findings.deep_view(),
                findings@.len() as int,
            )[k].0 && r@[k].1 == label_counts(findings.deep_view(), findings@.len() as int)[k].1,
{
    let ghost fs = findings.deep_view();
    let mut labels: Vec<Vec<char>> = Vec::new();
    let mut counts: Vec<usize> = Vec::new();
    let n = findings.len();
    for i in 0..n
        invariant
            n == findings@.len(),
            fs == findings.deep_view(),
            labels@.len() == label_counts(fs, i as int).len(),
            counts@.len() == labels@.len(),
            forall|k: int|
                0 <= k < labels@.len() ==> (#[trigger] labels@[k])@ == label_counts(
                    fs,
                    i as int,
                )[k].0,
            forall|k: int|
                0 <= k < counts@.len() ==> #[trigger] counts@[k] == label_counts(fs, i as int)[k].1,
    {
        proof {
            lemma_label_counts_bound(fs, i as int);
        }
        assert(fs[i as int].category == findings@[i as int].category);
        let label = chars_of(findings[i].category.label());
        let ghost lc = label_counts(fs, i as int);
        proof {
            crate::project_scanner::lemma_key_position(lc, label@, 0);
        }
        let mut p: usize = 0;
        while p < labels.len() && !chars_eq(&labels[p], &label)
            invariant
                p <= labels@.len(),
                labels@.len() == lc.len(),
                forall|k: int| 0 <= k < labels@.len() ==> (#[trigger] labels@[k])@ == lc[k].0,
                crate::project_scanner::key_position(lc, label@, p as int)
                    == crate::project_scanner::key_position(lc, label@, 0),
            decreases labels@.len() - p,
        {
            p = p + 1;
        }
        let ghost lv = label@;
        assert(lv == spec_label(fs[i as int].category));
        let ghost lc2 = label_counts(fs, i + 1);
        assert(lc2 == count_add(lc, lv));
        let ghost old_labels = labels@;
        let ghost old_counts = counts@;
        if p < labels.len() {
            assert(counts@[p as int] == lc[p as int].1);
            assert(counts@[p as int] <= i);
            let c = counts[p] + 1;
            counts.set(p, c);
            assert(lc2 == lc.update(p as int, (lv, lc[p as int].1 + 1)));
            assert forall|k: int| 0 <= k < labels@.len() implies (#[trigger] labels@[k])@
                == lc2[k].0 by {
                assert(labels@[k] == old_labels[k]);
            }
            assert forall|k: int| 0 <= k < counts@.len() implies #[trigger] counts@[k]
                == lc2[k].1 by {
                if k != p {
                    assert(counts@[k] == old_counts[k]);
                }
            }
        } else {
            labels.push(label);
            counts.push(1);
            assert(lc2 == lc.push((lv, 1nat)));
            assert forall|k: int| 0 <= k < labels@.len() implies (#[trigger] labels@[k])@
                == lc2[k].0 by {
                if k < old_labels.len() {
                    assert(labels@[k] == old_labels[k]);
                }
            }
            assert forall|k: int| 0 <= k < counts@.len() implies #[trigger] counts@[k]
                == lc2[k].1 by {
                if k < old_counts.len() {
                    assert(counts@[k] == old_counts[k]);
                }
            }
        }
    }
    let mut out: Vec<(String, usize)> = Vec::new();
    let m = labels.len();
    assert forall|q: int| 0 <= q < m implies labels@[q]@ == label_counts(fs, n as int)[q].0
        && counts@[q] == label_counts(fs, n as int)[q].1 by {
        assert(labels@[q]@ == label_counts(fs, n as int)[q].0);
        assert(counts@[q] == label_counts(fs, n as int)[q].1);
    }
    for k in 0..m
        invariant
            m == labels@.len(),
            counts@.len() == m,
            forall|q: int|
                0 <= q < m ==> (#[trigger] labels@[q])@ == label_counts(fs, n as int)[q].0
                    && counts@[q] == label_counts(fs, n as int)[q].1,
            fs == findings.deep_view(),
            n == findings@.len(),
            out@.len() == k,
            forall|q: int|
                0 <= q < k ==> (#[trigger] out@[q]).0@ == labels@[q]@ && out@[q].1 == counts@[q],
    {
        out.push((string_of(&labels[k]), counts[k]));
    }
    out
}

/// The per-label counts ordered by count, largest first; among equal counts
/// the earlier stays first.
pub open spec fn sort_counts(cs: Seq<(Seq<char>, nat)>) -> Seq<(Seq<char>, nat)>
    decreases cs.len(),
{
    if cs.len() == 0 {
        seq![]
    } else {
        let t = sort_counts(cs.drop_last());
        let x = cs.last();
        let p = count_insert_pos(t, x.1, 0);
        if 0 <= p <= t.len() {
            t.insert(p, x)
        } else {
            t
        }
    }
}

/// Where a count `c` goes among counts ordered largest first: after every
/// count at least as large, searching from `k`.
pub open spec fn count_insert_pos(t: Seq<(Seq<char>, nat)>, c: nat, k: int) -> int
    decreases t.len() - k,
{
    if 0 <= k < t.len() && t[k].1 >= c {
        count_insert_pos(t, c, k + 1)
    } else {
        k
    }
}

pub proof fn lemma_count_insert_pos(t: Seq<(Seq<char>, nat)>, c: nat, k: int)
    requires
        0 <= k <= t.len(),
    ensures
        k <= count_insert_pos(t, c, k) <= t.len(),
        forall|j: int| k <= j < count_insert_pos(t, c, k) ==> t[j].1 >= c,
        count_insert_pos(t, c, k) < t.len() ==> t[count_insert_pos(t, c, k)].1 < c,
    decreases t.len() - k,
{
    if k < t.len() && t[k].1 >= c {
        lemma_count_insert_pos(t, c, k + 1);
    }
}

/// The category summary as the terminal report prints it: `count label`
/// entries, largest count first, joined with ` | `.
pub open spec fn spec_summary_line(fs: Seq<FindingView>) -> Seq<char> {
    let sorted = sort_counts(label_counts(fs, fs.len() as int));
    join(Seq::new(sorted.len(), |i: int| decimal(sorted[i].1) + " "@ + sorted[i].0), " | "@)
}

/// The category summary line, e.g. `2 Build Artifact | 1 Missing Lockfile`.
pub fn summary_line(findings: &Vec<Finding>) -> (r: String)
    ensures
        r@ == spec_summary_line(findings.deep_view()),
{
    let ghost fs = findings.deep_view();
    let counts = category_counts(findings);
    let ghost cs = label_counts(fs, findings@.len() as int);
    proof {
        lemma_label_counts_bound(fs, findings@.len() as int);
    }
    let mut sorted_labels: Vec<Vec<char>> = Vec::new();
    let mut sorted_counts: Vec<usize> = Vec::new();
    let n = counts.len();
    assert(cs.take(0) =~= Seq::<(Seq<char>, nat)>::empty());
    for i in 0..n
        invariant
            n == counts@.len(),
            n == cs.len(),
            forall|k: int|
                0 <= k < counts@.len() ==> (#[trigger] counts@[k]).0@ == cs[k].0 && counts@[k].1
                    == cs[k].1,
            sorted_labels@.len() == sort_counts(cs.take(i as int)).len(),
            sorted_counts@.len() == sorted_labels@.len(),
            forall|k: int|
                0 <= k < sorted_labels@.len() ==> (#[trigger] sorted_labels@[k])@ == sort_counts(
                    cs.take(i as int),
                )[k].0,
            forall|k: int|
                0 <= k < sorted_counts@.len() ==> #[trigger] sorted_counts@[k] == sort_counts(
                    cs.take(i as int),
                )[k].1,
    {
        let ghost t = sort_counts(cs.take(i as int));
        assert(cs.take(i + 1).drop_last() =~= cs.take(i as int));
        assert(cs.take(i + 1).last() == cs[i as int]);
        let c = counts[i].1;
        proof {
            lemma_count_insert_pos(t, c as nat, 0);
        }
        let mut p: usize = 0;
        while p < sorted_counts.len() && sorted_counts[p] >= c
            invariant
                p <= sorted_counts@.len(),
                sorted_counts@.len() == t.len(),
                forall|k: int| 0 <= k < sorted_counts@.len() ==> sorted_counts@[k] == t[k].1,
                count_insert_pos(t, c as nat, p as int) == count_insert_pos(t, c as nat, 0),
            decreases sorted_counts@.len() - p,
        {
            p = p + 1;
        }
        let ghost old_labels = sorted_labels@;
        let ghost old_counts = sorted_counts@;
        sorted_labels.insert(p, chars_of(counts[i].0.as_str()));
        sorted_counts.insert(p, c);
        let ghost t2 = sort_counts(cs.take(i + 1));
        assert(t2 == t.insert(p as int, cs[i as int]));
        assert forall|k: int| 0 <= k < sorted_labels@.len() implies (#[trigger] sorted_labels@[k])@
            == t2[k].0 by {
            if k < p {
                assert(sorted_labels@[k] == old_labels[k]);
            } else if k == p {
            } else {
                assert(sorted_labels@[k] == old_labels[k - 1]);
            }
        }
        assert forall|k: int| 0 <= k < sorted_counts@.len() implies #[trigger] sorted_counts@[k]
            == t2[k].1 by {
            if k < p {
                assert(sorted_counts@[k] == old_counts[k]);
            } else if k == p {
            } else {
                assert(sorted_counts@[k] == old_counts[k - 1]);
            }
        }
    }
    assert(cs.take(n as int) =~= cs);
    let ghost sorted = sort_counts(cs);
    let ghost parts = Seq::new(sorted.len(), |i: int| decimal(sorted[i].1) + " "@ + sorted[i].0);
    let mut items: Vec<Vec<char>> = Vec::new();
    let m = sorted_labels.len();
    for k in 0..m
        invariant
            m == sorted_labels@.len(),
            m == sorted.len(),
            sorted_counts@.len() == m,
            forall|q: int|
                0 <= q < m ==> (#[trigger] sorted_labels@[q])@ == sorted[q].0 && sorted_counts@[q]
                    == sorted[q].1,
            parts == Seq::new(sorted.len(), |i: int| decimal(sorted[i].1) + " "@ + sorted[i].0),
            items.deep_view() == parts.take(k as int),
    {
        let mut item: Vec<char> = Vec::new();
        push_decimal(&mut item, sorted_counts[k] as u64);
        push_str(&mut item, " ");
        push_all(&mut item, &sorted_labels[k]);
        crate::push_deep(&mut items, item);
        assert(items.deep_view() =~= parts.take(k + 1));
    }
    assert(parts.take(m as int) =~= parts);
    let j = join_exec(&items, " | ");
    string_of(&j)
}


// ---------------------------------------------------------------------------
// Laws of the summary
// ---------------------------------------------------------------------------

/// How many of the first `n` findings carry `label`.
pub open spec fn label_occurrences(fs: Seq<FindingView>, label: Seq<char>, n: int) -> nat
    decreases n,
{
    if n <= 0 {
        0
    } else {
        label_occurrences(fs, label, n - 1) + if spec_label(fs[n - 1].category) == label {
            1nat
        } else {
            0nat
        }
    }
}

/// The sum of the counts.
pub open spec fn count_sum(cs: Seq<(Seq<char>, nat)>) -> nat
    decreases cs.len(),
{
    if cs.len() == 0 {
        0
    } else {
        count_sum(cs.drop_last()) + cs.last().1
    }
}

proof fn lemma_count_sum_update(cs: Seq<(Seq<char>, nat)>, k: int, l: Seq<char>)
    requires
        0 <= k < cs.len(),
    ensures
        count_sum(cs.update(k, (l, cs[k].1 + 1))) == count_sum(cs) + 1,
    decreases cs.len(),
{
    let u = cs.update(k, (l, cs[k].1 + 1));
    if k == cs.len() - 1 {
        assert(u.drop_last() =~= cs.drop_last());
    } else {
        lemma_count_sum_update(cs.drop_last(), k, l);
        assert(u.drop_last() =~= cs.drop_last().update(k, (l, cs[k].1 + 1)));
    }
}

proof fn lemma_label_counts_exact(fs: Seq<FindingView>, n: int)
    requires
        0 <= n <= fs.len(),
    ensures
        forall|i: int, j: int|
            0 <= i < j < label_counts(fs, n).len() ==> label_counts(fs, n)[i].0 != label_counts(
                fs,
                n,
            )[j].0,
        forall|k: int|
            0 <= k < label_counts(fs, n).len() ==> #[trigger] label_counts(fs, n)[k].1
                == label_occurrences(fs, label_counts(fs, n)[k].0, n),
        forall|i: int|
            0 <= i < n ==> exists|k: int|
                0 <= k < label_counts(fs, n).len() && #[trigger] label_counts(fs, n)[k].0
                    == spec_label(#[trigger] fs[i].category),
        count_sum(label_counts(fs, n)) == n,
    decreases n,
{
    if n > 0 {
        lemma_label_counts_exact(fs, n - 1);
        let lc = label_counts(fs, n - 1);
        let l = spec_label(fs[n - 1].category);
        crate::project_scanner::lemma_key_position(lc, l, 0);
        let k = crate::project_scanner::key_position(lc, l, 0);
        let nc = label_counts(fs, n);
        assert(nc == count_add(lc, l));
        if k < lc.len() {
            lemma_count_sum_update(lc, k, l);
            assert forall|q: int| 0 <= q < nc.len() implies #[trigger] nc[q].1
                == label_occurrences(fs, nc[q].0, n) by {
                if q != k {
                    assert(nc[q] == lc[q]);
                }
            }
            assert forall|i: int| 0 <= i < n implies exists|q: int|
                0 <= q < nc.len() && #[trigger] nc[q].0 == spec_label(#[trigger] fs[i].category) by {
                if i == n - 1 {
                    assert(nc[k].0 == l);
                } else {
                    let q = choose|q: int| 0 <= q < lc.len() && #[trigger] lc[q].0 == spec_label(
                        fs[i].category,
                    );
                    assert(nc[q].0 == lc[q].0);
                }
            }
        } else {
            assert(nc.drop_last() =~= lc);
            assert(label_occurrences(fs, l, n - 1) == 0) by {
                if label_occurrences(fs, l, n - 1) > 0 {
                    lemma_occurrence_witness(fs, l, n - 1);
                    let i = choose|i: int| 0 <= i < n - 1 && spec_label(fs[i].category) == l;
                    let q = choose|q: int| 0 <= q < lc.len() && #[trigger] lc[q].0 == spec_label(
                        fs[i].category,
                    );
                    assert(lc[q].0 != l);
                }
            }
            assert forall|q: int| 0 <= q < nc.len() implies #[trigger] nc[q].1
                == label_occurrences(fs, nc[q].0, n) by {
                if q < lc.len() {
                    assert(nc[q] == lc[q]);
                }
            }
            assert forall|i: int| 0 <= i < n implies exists|q: int|
                0 <= q < nc.len() && #[trigger] nc[q].0 == spec_label(#[trigger] fs[i].category) by {
                if i == n - 1 {
                    assert(nc[lc.len() as int].0 == l);
                } else {
                    let q = choose|q: int| 0 <= q < lc.len() && #[trigger] lc[q].0 == spec_label(
                        fs[i].category,
                    );
                    assert(nc[q].0 == lc[q].0);
                }
            }
        }
    }
}

proof fn lemma_occurrence_witness(fs: Seq<FindingView>, l: Seq<char>, n: int)
    requires
        label_occurrences(fs, l, n) > 0,
    ensures
        exists|i: int| 0 <= i < n && spec_label(fs[i].category) == l,
    decreases n,
{
    if n > 0 && spec_label(fs[n - 1].category) != l {
        lemma_occurrence_witness(fs, l, n - 1);
    }
}

/// The category counts that both reports show are exact: each label appears
/// once, its count is the number of findings of that label, every finding's
/// label appears, and the counts add up to the number of findings.
pub proof fn law_category_counts_exact(fs: Seq<FindingView>)
    ensures
        forall|i: int, j: int|
            0 <= i < j < label_counts(fs, fs.len() as int).len() ==> label_counts(
                fs,
                fs.len() as int,
            )[i].0 != label_counts(fs, fs.len() as int)[j].0,
        forall|k: int|
            0 <= k < label_counts(fs, fs.len() as int).len() ==> #[trigger] label_counts(
                fs,
                fs.len() as int,
            )[k].1 == label_occurrences(fs, label_counts(fs, fs.len() as int)[k].0, fs.len() as int),
        forall|i: int|
            0 <= i < fs.len() ==> exists|k: int|
                0 <= k < label_counts(fs, fs.len() as int).len() && #[trigger] label_counts(
                    fs,
                    fs.len() as int,
                )[k].0 == spec_label(#[trigger] fs[i].category),
        count_sum(label_counts(fs, fs.len() as int)) == fs.len(),
{
    lemma_label_counts_exact(fs, fs.len() as int);
}

/// The summary orders the category counts by count, largest first, and
/// keeps every (label, count) pair: the result is a permutation of its input.
pub proof fn law_sorted_counts(cs: Seq<(Seq<char>, nat)>)
    ensures
        sort_counts(cs).to_multiset() == cs.to_multiset(),
        sort_counts(cs).len() == cs.len(),
        forall|i: int, j: int|
            0 <= i < j < sort_counts(cs).len() ==> sort_counts(cs)[i].1 >= sort_counts(cs)[j].1,
    decreases cs.len(),
{
    broadcast use vstd::seq_lib::group_to_multiset_ensures;

    if cs.len() > 0 {
        let d = cs.drop_last();
        law_sorted_counts(d);
        let t = sort_counts(d);
        let x = cs.last();
        lemma_count_insert_pos(t, x.1, 0);
        let p = count_insert_pos(t, x.1, 0);
        let r = t.insert(p, x);
        assert(sort_counts(cs) == r);
        assert(cs =~= d.push(x));
        vstd::seq_lib::to_multiset_insert(t, p, x);
        assert forall|i: int, j: int| 0 <= i < j < r.len() implies r[i].1 >= r[j].1 by {
            if j < p {
                assert(r[i] == t[i] && r[j] == t[j]);
            } else if j == p {
                assert(r[i] == t[i]);
            } else if i < p {
                assert(r[i] == t[i] && r[j] == t[j - 1]);
            } else if i == p {
                assert(r[j] == t[j - 1]);
                if p < t.len() {
                    assert(t[p].1 < x.1);
                }
            } else {
                assert(r[i] == t[i - 1] && r[j] == t[j - 1]);
            }
        }
    }
}

} // verus!
