//! The aggregator: named groups of check results in insertion order, an
//! overall verdict, severity counts, and the human rendering.

use vstd::multiset::Multiset;
use vstd::prelude::*;

use crate::status::{views, CheckResult, CheckStatus, CheckView};
use crate::text;

verus! {

/// Mathematical model of a [`Report`]: the recorded insertion order of group
/// names, and the groups as an association list with distinct keys.
pub struct ReportView {
    pub order: Seq<Seq<char>>,
    pub sections: Seq<(Seq<char>, Seq<CheckView>)>,
}

pub open spec fn sec_views(s: Seq<(String, Vec<CheckResult>)>) -> Seq<(Seq<char>, Seq<CheckView>)> {
    Seq::new(s.len(), |i: int| (s[i].0@, views(s[i].1@)))
}

/// `name` is a key of `sections`.
pub open spec fn has_key(sections: Seq<(Seq<char>, Seq<CheckView>)>, name: Seq<char>) -> bool {
    exists|k: int| 0 <= k < sections.len() && (#[trigger] sections[k]).0 == name
}

/// The results stored under `name`, or the empty sequence where the key is
/// absent.
pub open spec fn lookup(
    sections: Seq<(Seq<char>, Seq<CheckView>)>,
    name: Seq<char>,
) -> Seq<CheckView>
    decreases sections.len(),
{
    if sections.len() == 0 {
        Seq::empty()
    } else if sections.first().0 == name {
        sections.first().1
    } else {
        lookup(sections.drop_first(), name)
    }
}

/// `sections` with the entry for `name` replaced, or appended where the key
/// is new.
pub open spec fn upsert(
    sections: Seq<(Seq<char>, Seq<CheckView>)>,
    name: Seq<char>,
    results: Seq<CheckView>,
) -> Seq<(Seq<char>, Seq<CheckView>)>
    decreases sections.len(),
{
    if sections.len() == 0 {
        seq![(name, results)]
    } else if sections.first().0 == name {
        seq![(name, results)] + sections.drop_first()
    } else {
        seq![sections.first()] + upsert(sections.drop_first(), name, results)
    }
}

/// All results of all groups, in group order.
pub open spec fn flat_sections(sections: Seq<(Seq<char>, Seq<CheckView>)>) -> Seq<CheckView>
    decreases sections.len(),
{
    if sections.len() == 0 {
        Seq::empty()
    } else {
        flat_sections(sections.drop_last()) + sections.last().1
    }
}

/// How many results in `s` carry severity `st`.
pub open spec fn count_status(s: Seq<CheckView>, st: CheckStatus) -> nat
    decreases s.len(),
{
    if s.len() == 0 {
        0
    } else {
        count_status(s.drop_last(), st) + if s.last().status == st {
            1nat
        } else {
            0nat
        }
    }
}

/// No result in any group has a failing severity.
pub open spec fn compatible(rv: ReportView) -> bool {
    forall|i: int, j: int|
        0 <= i < rv.sections.len() && 0 <= j < rv.sections[i].1.len() ==> !(#[trigger] rv.sections[i].1[j]).status.spec_is_failure()
}

/// Some result in some group carries severity `st`.
pub open spec fn has_status(
    sections: Seq<(Seq<char>, Seq<CheckView>)>,
    st: CheckStatus,
) -> bool {
    exists|i: int, j: int|
        0 <= i < sections.len() && 0 <= j < sections[i].1.len() && (#[trigger] sections[i].1[j]).status == st
}

/// The invariant every report built by [`Report::new`] and
/// [`Report::add_section`] keeps: keys are distinct, every recorded name is
/// a key, and every key was recorded.
pub open spec fn report_wf(rv: ReportView) -> bool {
    &&& forall|i: int, j: int|
        0 <= i < j < rv.sections.len() ==> (#[trigger] rv.sections[i]).0 != (
        #[trigger] rv.sections[j]).0
    &&& forall|i: int| 0 <= i < rv.order.len() ==> has_key(rv.sections, #[trigger] rv.order[i])
    &&& forall|k: int|
        0 <= k < rv.sections.len() ==> order_contains(rv.order, (#[trigger] rv.sections[k]).0)
}

pub open spec fn order_contains(order: Seq<Seq<char>>, name: Seq<char>) -> bool {
    exists|i: int| 0 <= i < order.len() && order[i] == name
}

/// Count of results per severity, as the structured output reports them.
#[derive(Debug, Clone, Copy, PartialEq, Eq, Structural)]
pub struct CheckCounts {
    pub pass: usize,
    pub fail: usize,
    pub warning: usize,
    pub info: usize,
    pub error: usize,
}

/// Ordered collection of named groups of check results with a derived
/// overall verdict. Duplicate group names overwrite the stored group but
/// keep the earlier position in the recorded order; callers are expected to
/// avoid them.
#[derive(Debug)]
pub struct Report {
    order: Vec<String>,
    sections: Vec<(String, Vec<CheckResult>)>,
}

impl View for Report {
    type V = ReportView;

    closed spec fn view(&self) -> ReportView {
        ReportView { order: self.order.deep_view(), sections: sec_views(self.sections@) }
    }
}

// ---------------------------------------------------------------------------
// Lemmas about lookup and upsert
// ---------------------------------------------------------------------------

/// Where the first `k` keys differ from `name` and key `k` matches, lookup
/// finds entry `k`.
proof fn lemma_lookup_at(sections: Seq<(Seq<char>, Seq<CheckView>)>, name: Seq<char>, k: int)
    requires
        0 <= k < sections.len(),
        forall|m: int| 0 <= m < k ==> (#[trigger] sections[m]).0 != name,
        sections[k].0 == name,
    ensures
        lookup(sections, name) == sections[k].1,
    decreases k,
{
    if k > 0 {
        let t = sections.drop_first();
        assert(forall|m: int| 0 <= m < k - 1 ==> (#[trigger] t[m]).0 != name);
        lemma_lookup_at(t, name, k - 1);
    }
}

/// Where the first `k` keys differ from `name` and key `k` matches, upsert
/// updates entry `k` in place.
proof fn lemma_upsert_found(
    sections: Seq<(Seq<char>, Seq<CheckView>)>,
    name: Seq<char>,
    results: Seq<CheckView>,
    k: int,
)
    requires
        0 <= k < sections.len(),
        forall|m: int| 0 <= m < k ==> (#[trigger] sections[m]).0 != name,
        sections[k].0 == name,
    ensures
        upsert(sections, name, results) == sections.update(k, (name, results)),
    decreases k,
{
    if k == 0 {
        assert(seq![(name, results)] + sections.drop_first() =~= sections.update(
            0,
            (name, results),
        ));
    } else {
        let t = sections.drop_first();
        assert(forall|m: int| 0 <= m < k - 1 ==> (#[trigger] t[m]).0 != name);
        lemma_upsert_found(t, name, results, k - 1);
        assert(seq![sections.first()] + t.update(k - 1, (name, results)) =~= sections.update(
            k,
            (name, results),
        ));
    }
}

/// Where no key matches `name`, upsert appends.
proof fn lemma_upsert_fresh(
    sections: Seq<(Seq<char>, Seq<CheckView>)>,
    name: Seq<char>,
    results: Seq<CheckView>,
)
    requires
        forall|m: int| 0 <= m < sections.len() ==> (#[trigger] sections[m]).0 != name,
    ensures
        upsert(sections, name, results) == sections.push((name, results)),
    decreases sections.len(),
{
    if sections.len() == 0 {
        assert(seq![(name, results)] =~= sections.push((name, results)));
    } else {
        let t = sections.drop_first();
        assert(forall|m: int| 0 <= m < t.len() ==> (#[trigger] t[m]).0 != name);
        lemma_upsert_fresh(t, name, results);
        assert(seq![sections.first()] + t.push((name, results)) =~= sections.push(
            (name, results),
        ));
    }
}

impl Report {
    pub open spec fn wf(&self) -> bool {
        report_wf(self@)
    }

    /// An empty report.
    pub fn new() -> (r: Report)
        ensures
            r@.order == Seq::<Seq<char>>::empty(),
            r@.sections == Seq::<(Seq<char>, Seq<CheckView>)>::empty(),
            r.wf(),
    {
        let r = Report { order: Vec::new(), sections: Vec::new() };
        proof {
            assert(r@.order =~= Seq::<Seq<char>>::empty());
            assert(r@.sections =~= Seq::<(Seq<char>, Seq<CheckView>)>::empty());
        }
        r
    }

    /// Appends `results` under `name`: the name is recorded in insertion
    /// order, and the stored group for `name` is replaced where one exists.
    pub fn add_section(&mut self, name: &str, results: Vec<CheckResult>)
        requires
            old(self).wf(),
        ensures
            final(self).wf(),
            final(self)@.order == old(self)@.order.push(name@),
            final(self)@.sections == upsert(old(self)@.sections, name@, views(results@)),
    {
        let ghost old_order = self@.order;
        let ghost old_secs = self@.sections;
        let n = self.sections.len();
        let mut found: Option<usize> = None;
        let mut k: usize = 0;
        while k < n
            invariant
                n == self.sections@.len(),
                0 <= k <= n,
                found is Some ==> k == n,
                match found {
                    Some(f) => 0 <= f < n && (#[trigger] sec_views(self.sections@)[f as int]).0
                        == name@ && forall|m: int|
                        0 <= m < f ==> (#[trigger] sec_views(self.sections@)[m]).0 != name@,
                    None => forall|m: int|
                        0 <= m < k ==> (#[trigger] sec_views(self.sections@)[m]).0 != name@,
                },
            decreases n - k,
        {
            if text::str_eq(self.sections[k].0.as_str(), name) {
                found = Some(k);
                k = n;
            } else {
                k += 1;
            }
        }
        self.order.push(String::from_str(name));
        proof {
            assert(self.order.deep_view() =~= old_order.push(name@));
        }
        match found {
            Some(k) => {
                let ghost pre = sec_views(self.sections@);
                self.sections.set(k, (String::from_str(name), results));
                proof {
                    lemma_upsert_found(pre, name@, views(results@), k as int);
                    assert(sec_views(self.sections@) =~= pre.update(
                        k as int,
                        (name@, views(results@)),
                    ));
                    lemma_add_section_wf_found(
                        ReportView { order: old_order, sections: old_secs },
                        self@,
                        name@,
                        views(results@),
                        k as int,
                    );
                }
            },
            None => {
                let ghost pre = sec_views(self.sections@);
                self.sections.push((String::from_str(name), results));
                proof {
                    lemma_upsert_fresh(pre, name@, views(results@));
                    assert(sec_views(self.sections@) =~= pre.push((name@, views(results@))));
                    lemma_add_section_wf_fresh(
                        ReportView { order: old_order, sections: old_secs },
                        self@,
                        name@,
                        views(results@),
                    );
                }
            },
        }
    }

    /// True iff no result in any group has a failing severity.
    pub fn is_compatible(&self) -> (r: bool)
        ensures
            r == compatible(self@),
    {
        let mut i: usize = 0;
        while i < self.sections.len()
            invariant
                0 <= i <= self.sections.len(),
                forall|i2: int, j2: int|
                    0 <= i2 < i && 0 <= j2 < self@.sections[i2].1.len() ==> !(
                    #[trigger] self@.sections[i2].1[j2]).status.spec_is_failure(),
            decreases self.sections.len() - i,
        {
            let results = &self.sections[i].1;
            let mut j: usize = 0;
            while j < results.len()
                invariant
                    0 <= i < self.sections@.len(),
                    results == &self.sections[i as int].1,
                    0 <= j <= results.len(),
                    forall|j2: int|
                        0 <= j2 < j ==> !(
                        #[trigger] views(results@)[j2]).status.spec_is_failure(),
                decreases results.len() - j,
            {
                if results[j].status.is_failure() {
                    assert(self@.sections[i as int].1[j as int].status.spec_is_failure());
                    assert(!compatible(self@));
                    return false;
                }
                j += 1;
            }
            assert(forall|j2: int|
                0 <= j2 < self@.sections[i as int].1.len() ==> !(
                #[trigger] self@.sections[i as int].1[j2]).status.spec_is_failure());
            i += 1;
        }
        true
    }

    /// The stored groups, for callers that serialize the report.
    pub fn entries(&self) -> (r: &Vec<(String, Vec<CheckResult>)>)
        ensures
            sec_views(r@) == self@.sections,
    {
        &self.sections
    }

    /// The recorded insertion order of group names.
    pub fn names(&self) -> (r: &Vec<String>)
        ensures
            r.deep_view() == self@.order,
    {
        &self.order
    }
}

/// Well-formedness is kept when an existing group is overwritten.
proof fn lemma_add_section_wf_found(
    pre: ReportView,
    post: ReportView,
    name: Seq<char>,
    results: Seq<CheckView>,
    k: int,
)
    requires
        report_wf(pre),
        0 <= k < pre.sections.len(),
        pre.sections[k].0 == name,
        post.order == pre.order.push(name),
        post.sections == pre.sections.update(k, (name, results)),
    ensures
        report_wf(post),
{
    assert(forall|i: int|
        0 <= i < post.sections.len() ==> (#[trigger] post.sections[i]).0 == pre.sections[i].0);
    assert forall|i: int| 0 <= i < post.order.len() implies has_key(
        post.sections,
        #[trigger] post.order[i],
    ) by {
        if i < pre.order.len() {
            let w = choose|w: int|
                0 <= w < pre.sections.len() && (#[trigger] pre.sections[w]).0 == pre.order[i];
            assert(post.sections[w].0 == pre.order[i]);
        } else {
            assert(post.sections[k].0 == name);
        }
    }
    assert forall|m: int| 0 <= m < post.sections.len() implies order_contains(
        post.order,
        (#[trigger] post.sections[m]).0,
    ) by {
        let w = choose|w: int|
            0 <= w < pre.order.len() && pre.order[w] == pre.sections[m].0;
        assert(post.order[w] == post.sections[m].0);
    }
}

/// Well-formedness is kept when a new group is appended.
proof fn lemma_add_section_wf_fresh(
    pre: ReportView,
    post: ReportView,
    name: Seq<char>,
    results: Seq<CheckView>,
)
    requires
        report_wf(pre),
        forall|m: int| 0 <= m < pre.sections.len() ==> (#[trigger] pre.sections[m]).0 != name,
        post.order == pre.order.push(name),
        post.sections == pre.sections.push((name, results)),
    ensures
        report_wf(post),
{
    assert forall|i: int| 0 <= i < post.order.len() implies has_key(
        post.sections,
        #[trigger] post.order[i],
    ) by {
        if i < pre.order.len() {
            let w = choose|w: int|
                0 <= w < pre.sections.len() && (#[trigger] pre.sections[w]).0 == pre.order[i];
            assert(post.sections[w].0 == pre.order[i]);
        } else {
            assert(post.sections[post.sections.len() - 1].0 == name);
        }
    }
    assert forall|m: int| 0 <= m < post.sections.len() implies order_contains(
        post.order,
        (#[trigger] post.sections[m]).0,
    ) by {
        if m < pre.sections.len() {
            let w = choose|w: int|
                0 <= w < pre.order.len() && pre.order[w] == pre.sections[m].0;
            assert(post.order[w] == post.sections[m].0);
        } else {
            assert(post.order[post.order.len() - 1] == name);
        }
    }
}

// ---------------------------------------------------------------------------
// Counting results by severity
// ---------------------------------------------------------------------------

/// A count never exceeds the length counted over.
pub proof fn lemma_count_le_len(s: Seq<CheckView>, st: CheckStatus)
    ensures
        count_status(s, st) <= s.len(),
    decreases s.len(),
{
    if s.len() > 0 {
        lemma_count_le_len(s.drop_last(), st);
    }
}

/// Counting distributes over concatenation.
pub proof fn lemma_count_concat(a: Seq<CheckView>, b: Seq<CheckView>, st: CheckStatus)
    ensures
        count_status(a + b, st) == count_status(a, st) + count_status(b, st),
    decreases b.len(),
{
    if b.len() == 0 {
        assert(a + b =~= a);
    } else {
        lemma_count_concat(a, b.drop_last(), st);
        assert((a + b).drop_last() =~= a + b.drop_last());
        assert((a + b).last() == b.last());
    }
}

/// The whole flattening splits at any group boundary.
proof fn lemma_flat_decompose(sections: Seq<(Seq<char>, Seq<CheckView>)>, i: int)
    requires
        0 <= i < sections.len(),
    ensures
        flat_sections(sections) == flat_sections(sections.subrange(0, i)) + sections[i].1
            + flat_sections(sections.subrange(i + 1, sections.len() as int)),
    decreases sections.len(),
{
    let n = sections.len() as int;
    if i == n - 1 {
        assert(sections.subrange(0, i) =~= sections.drop_last());
        assert(sections.subrange(i + 1, n) =~= Seq::<(Seq<char>, Seq<CheckView>)>::empty());
        assert(flat_sections(sections) =~= flat_sections(sections.subrange(0, i))
            + sections[i].1 + flat_sections(sections.subrange(i + 1, n)));
    } else {
        let dl = sections.drop_last();
        lemma_flat_decompose(dl, i);
        assert(dl.subrange(0, i) =~= sections.subrange(0, i));
        let mid = sections.subrange(i + 1, n);
        assert(mid.drop_last() =~= dl.subrange(i + 1, dl.len() as int));
        assert(mid.last() == sections.last());
        assert(flat_sections(sections) =~= flat_sections(sections.subrange(0, i))
            + sections[i].1 + flat_sections(mid));
    }
}

/// One group more in the prefix appends that group's results.
proof fn lemma_flat_step(sections: Seq<(Seq<char>, Seq<CheckView>)>, i: int)
    requires
        0 <= i < sections.len(),
    ensures
        flat_sections(sections.subrange(0, i + 1)) == flat_sections(sections.subrange(0, i))
            + sections[i].1,
{
    let p = sections.subrange(0, i + 1);
    assert(p.drop_last() =~= sections.subrange(0, i));
    assert(p.last() == sections[i]);
}

impl Report {
    /// The number of results across all groups, where it fits the machine;
    /// `None` where it would not.
    pub fn total_results(&self) -> (r: Option<usize>)
        ensures
            match r {
                Some(t) => t == flat_sections(self@.sections).len(),
                None => flat_sections(self@.sections).len() > usize::MAX,
            },
    {
        let n = self.sections.len();
        let mut acc: usize = 0;
        let mut i: usize = 0;
        while i < n
            invariant
                n == self.sections@.len(),
                0 <= i <= n,
                acc == flat_sections(self@.sections.subrange(0, i as int)).len(),
            decreases n - i,
        {
            proof {
                lemma_flat_step(self@.sections, i as int);
            }
            match acc.checked_add(self.sections[i].1.len()) {
                Some(a) => {
                    acc = a;
                },
                None => {
                    proof {
                        lemma_flat_decompose(self@.sections, i as int);
                    }
                    return None;
                },
            }
            i += 1;
        }
        proof {
            assert(self@.sections.subrange(0, n as int) =~= self@.sections);
        }
        Some(acc)
    }

    /// The number of results of each severity across all groups.
    pub fn check_counts(&self) -> (c: CheckCounts)
        requires
            flat_sections(self@.sections).len() <= usize::MAX,
        ensures
            c.pass == count_status(flat_sections(self@.sections), CheckStatus::Pass),
            c.fail == count_status(flat_sections(self@.sections), CheckStatus::Fail),
            c.warning == count_status(flat_sections(self@.sections), CheckStatus::Warning),
            c.info == count_status(flat_sections(self@.sections), CheckStatus::Info),
            c.error == count_status(flat_sections(self@.sections), CheckStatus::Error),
    {
        let ghost whole = flat_sections(self@.sections);
        let n = self.sections.len();
        let mut pass: usize = 0;
        let mut fail: usize = 0;
        let mut warning: usize = 0;
        let mut info: usize = 0;
        let mut error: usize = 0;
        let mut i: usize = 0;
        while i < n
            invariant
                whole == flat_sections(self@.sections),
                whole.len() <= usize::MAX,
                n == self.sections@.len(),
                0 <= i <= n,
                pass == count_status(
                    flat_sections(self@.sections.subrange(0, i as int)),
                    CheckStatus::Pass,
                ),
                fail == count_status(
                    flat_sections(self@.sections.subrange(0, i as int)),
                    CheckStatus::Fail,
                ),
                warning == count_status(
                    flat_sections(self@.sections.subrange(0, i as int)),
                    CheckStatus::Warning,
                ),
                info == count_status(
                    flat_sections(self@.sections.subrange(0, i as int)),
                    CheckStatus::Info,
                ),
                error == count_status(
                    flat_sections(self@.sections.subrange(0, i as int)),
                    CheckStatus::Error,
                ),
            decreases n - i,
        {
            let ghost prefix = flat_sections(self@.sections.subrange(0, i as int));
            let results = &self.sections[i].1;
            proof {
                lemma_flat_decompose(self@.sections, i as int);
            }
            let m = results.len();
            let mut j: usize = 0;
            while j < m
                invariant
                    whole == flat_sections(self@.sections),
                    whole.len() <= usize::MAX,
                    n == self.sections@.len(),
                    0 <= i < n,
                    results == &self.sections[i as int].1,
                    m == views(results@).len(),
                    prefix == flat_sections(self@.sections.subrange(0, i as int)),
                    whole == prefix + views(results@) + flat_sections(
                        self@.sections.subrange(i + 1, n as int),
                    ),
                    0 <= j <= m,
                    pass == count_status(
                        prefix + views(results@).subrange(0, j as int),
                        CheckStatus::Pass,
                    ),
                    fail == count_status(
                        prefix + views(results@).subrange(0, j as int),
                        CheckStatus::Fail,
                    ),
                    warning == count_status(
                        prefix + views(results@).subrange(0, j as int),
                        CheckStatus::Warning,
                    ),
                    info == count_status(
                        prefix + views(results@).subrange(0, j as int),
                        CheckStatus::Info,
                    ),
                    error == count_status(
                        prefix + views(results@).subrange(0, j as int),
                        CheckStatus::Error,
                    ),
                decreases m - j,
            {
                let ghost seen = prefix + views(results@).subrange(0, j as int);
                let ghost elem = views(results@)[j as int];
                proof {
                    let seen2 = prefix + views(results@).subrange(0, j + 1);
                    assert(seen2.drop_last() =~= seen);
                    assert(seen2.last() == elem);
                    lemma_count_le_len(seen2, CheckStatus::Pass);
                    lemma_count_le_len(seen2, CheckStatus::Fail);
                    lemma_count_le_len(seen2, CheckStatus::Warning);
                    lemma_count_le_len(seen2, CheckStatus::Info);
                    lemma_count_le_len(seen2, CheckStatus::Error);
                    assert(whole.len() >= seen2.len()) by {
                        assert(whole == prefix + views(results@) + flat_sections(
                            self@.sections.subrange(i + 1, n as int),
                        ));
                        assert(views(results@).subrange(0, j + 1).len() <= views(
                            results@,
                        ).len());
                    }
                }
                match results[j].status {
                    CheckStatus::Pass => {
                        pass += 1;
                    },
                    CheckStatus::Fail => {
                        fail += 1;
                    },
                    CheckStatus::Warning => {
                        warning += 1;
                    },
                    CheckStatus::Info => {
                        info += 1;
                    },
                    CheckStatus::Error => {
                        error += 1;
                    },
                }
                j += 1;
            }
            proof {
                lemma_flat_step(self@.sections, i as int);
                assert(views(results@).subrange(0, m as int) =~= views(results@));
            }
            i += 1;
        }
        proof {
            assert(self@.sections.subrange(0, n as int) =~= self@.sections);
        }
        CheckCounts { pass, fail, warning, info, error }
    }

    /// Some result in some group carries severity `Warning`.
    pub fn has_warning(&self) -> (r: bool)
        ensures
            r == has_status(self@.sections, CheckStatus::Warning),
    {
        let mut i: usize = 0;
        while i < self.sections.len()
            invariant
                0 <= i <= self.sections@.len(),
                forall|i2: int, j2: int|
                    0 <= i2 < i && 0 <= j2 < self@.sections[i2].1.len() ==> (
                    #[trigger] self@.sections[i2].1[j2]).status != CheckStatus::Warning,
            decreases self.sections@.len() - i,
        {
            let results = &self.sections[i].1;
            let mut j: usize = 0;
            while j < results.len()
                invariant
                    0 <= i < self.sections@.len(),
                    results == &self.sections[i as int].1,
                    0 <= j <= results@.len(),
                    forall|j2: int|
                        0 <= j2 < j ==> (#[trigger] views(results@)[j2]).status
                            != CheckStatus::Warning,
                decreases results@.len() - j,
            {
                if matches!(results[j].status, CheckStatus::Warning) {
                    assert(self@.sections[i as int].1[j as int].status == CheckStatus::Warning);
                    return true;
                }
                j += 1;
            }
            assert(forall|j2: int|
                0 <= j2 < self@.sections[i as int].1.len() ==> (
                #[trigger] self@.sections[i as int].1[j2]).status != CheckStatus::Warning);
            i += 1;
        }
        false
    }
}

// ---------------------------------------------------------------------------
// Human rendering
// ---------------------------------------------------------------------------

/// The main line of one result: icon, name, message.
pub open spec fn result_line(c: CheckView) -> Seq<char> {
    "  "@ + c.status.spec_icon() + " "@ + c.name + " - "@ + c.message
}

/// Details are shown always for failing and warning severities, otherwise
/// only when the verbosity flag is set.
pub open spec fn show_details(c: CheckView, verbose: bool) -> bool {
    verbose || c.status is Fail || c.status is Warning || c.status is Error
}

/// The indented detail lines of one result, where they are shown.
pub open spec fn detail_lines(c: CheckView, verbose: bool) -> Seq<Seq<char>> {
    match c.details {
        Some(d) => if show_details(c, verbose) {
            text::lines_spec(d).map_values(|l: Seq<char>| "      "@ + l)
        } else {
            Seq::empty()
        },
        None => Seq::empty(),
    }
}

/// All lines of one result.
pub open spec fn result_lines(c: CheckView, verbose: bool) -> Seq<Seq<char>> {
    seq![result_line(c)] + detail_lines(c, verbose)
}

/// All lines of one group's results, in the order the probe emitted them.
pub open spec fn results_lines(results: Seq<CheckView>, verbose: bool) -> Seq<Seq<char>>
    decreases results.len(),
{
    if results.len() == 0 {
        Seq::empty()
    } else {
        results_lines(results.drop_last(), verbose) + result_lines(results.last(), verbose)
    }
}

/// One rendered group: a blank line, the name, a dash rule as wide as the
/// name's byte length, then the result lines.
pub open spec fn section_lines(name: Seq<char>, results: Seq<CheckView>, verbose: bool) -> Seq<
    Seq<char>,
> {
    seq![
        Seq::<char>::empty(),
        name,
        text::repeat_seq("-"@, (vstd::utf8::encode_utf8(name).len() as usize) as nat),
    ] + results_lines(results, verbose)
}

/// The rendered groups, one block per recorded name, in insertion order.
pub open spec fn render_blocks(rv: ReportView, verbose: bool) -> Seq<Seq<Seq<char>>> {
    Seq::new(
        rv.order.len(),
        |i: int| section_lines(rv.order[i], lookup(rv.sections, rv.order[i]), verbose),
    )
}

pub open spec fn concat_blocks(blocks: Seq<Seq<Seq<char>>>) -> Seq<Seq<char>>
    decreases blocks.len(),
{
    if blocks.len() == 0 {
        Seq::empty()
    } else {
        concat_blocks(blocks.drop_last()) + blocks.last()
    }
}

/// The summary banner under the rendered groups.
pub open spec fn summary_lines(has_f: bool, has_w: bool, verbose: bool) -> Seq<Seq<char>> {
    let head = seq![
        Seq::<char>::empty(),
        text::repeat_seq("="@, 50),
        "Summary"@,
        text::repeat_seq("="@, 50),
    ];
    let banner = if has_f {
        seq![
            "❌ XDP compatibility check FAILED"@,
            "   Some critical requirements are not met."@,
            "   Please address the issues marked with ✗ above."@,
        ]
    } else if has_w {
        seq![
            "⚠️  XDP compatibility check PASSED with warnings"@,
            "   System supports XDP but some optimizations are missing."@,
            "   Review warnings marked with ⚠ for better performance."@,
        ]
    } else {
        seq!["✅ XDP compatibility check PASSED"@, "   System is ready for XDP deployment!"@]
    };
    let tip = if !verbose && (has_f || has_w) {
        seq![Seq::<char>::empty(), "💡 Run with --verbose for detailed information"@]
    } else {
        Seq::<Seq<char>>::empty()
    };
    head + banner + tip
}

/// Every line of the human rendering: the groups in insertion order, then
/// the summary.
pub open spec fn render_human_spec(rv: ReportView, verbose: bool) -> Seq<Seq<char>> {
    concat_blocks(render_blocks(rv, verbose)) + summary_lines(
        !compatible(rv),
        has_status(rv.sections, CheckStatus::Warning),
        verbose,
    )
}

/// Builds the main line of one result.
fn result_line_string(c: &CheckResult) -> (r: String)
    ensures
        r@ == result_line(c@),
{
    let mut r = String::from_str("  ");
    let icon = c.status.to_icon();
    r.append(icon.as_str());
    r.append(" ");
    r.append(c.name.as_str());
    r.append(" - ");
    r.append(c.message.as_str());
    proof {
        assert(r@ =~= result_line(c@));
    }
    r
}

impl Report {
    /// Renders the report for a human reader, group by group in insertion
    /// order, with the summary banner last. The caller prints the lines.
    pub fn render_human(&self, verbose: bool) -> (out: Vec<String>)
        requires
            self.wf(),
        ensures
            out.deep_view() == render_human_spec(self@, verbose),
    {
        let ghost blocks = render_blocks(self@, verbose);
        let mut out: Vec<String> = Vec::new();
        let nord = self.order.len();
        let mut i: usize = 0;
        proof {
            assert(blocks.subrange(0, 0) =~= Seq::<Seq<Seq<char>>>::empty());
            assert(out.deep_view() =~= Seq::<Seq<char>>::empty());
        }
        while i < nord
            invariant
                self.wf(),
                blocks == render_blocks(self@, verbose),
                nord == self@.order.len(),
                0 <= i <= nord,
                out.deep_view() == concat_blocks(blocks.subrange(0, i as int)),
            decreases nord - i,
        {
            let name: &String = &self.order[i];
            proof {
                assert(name@ == self@.order[i as int]);
            }
            let ns = self.sections.len();
            let mut k: usize = 0;
            let mut found: Option<usize> = None;
            while k < ns
                invariant
                    ns == self.sections@.len(),
                    0 <= k <= ns,
                    found is Some ==> k == ns,
                    match found {
                        Some(f) => 0 <= f < ns && (#[trigger] sec_views(self.sections@)[
                            f as int
                        ]).0 == name@ && forall|m: int|
                            0 <= m < f ==> (#[trigger] sec_views(self.sections@)[m]).0 != name@,
                        None => forall|m: int|
                            0 <= m < k ==> (#[trigger] sec_views(self.sections@)[m]).0 != name@,
                    },
                decreases ns - k,
            {
                if text::str_eq(self.sections[k].0.as_str(), name.as_str()) {
                    found = Some(k);
                    k = ns;
                } else {
                    k += 1;
                }
            }
            let kk: usize = match found {
                Some(f) => f,
                None => {
                    proof {
                        assert(has_key(self@.sections, name@));
                        let w = choose|w: int|
                            0 <= w < self@.sections.len() && (#[trigger] self@.sections[w]).0
                                == name@;
                        assert(sec_views(self.sections@)[w].0 == name@);
                    }
                    vstd::pervasive::unreached()
                },
            };
            let results: &Vec<CheckResult> = &self.sections[kk].1;
            proof {
                lemma_lookup_at(self@.sections, name@, kk as int);
                assert(lookup(self@.sections, name@) == views(results@));
            }
            let ghost header3: Seq<Seq<char>> = seq![
                Seq::<char>::empty(),
                name@,
                text::repeat_seq("-"@, (vstd::utf8::encode_utf8(name@).len() as usize) as nat),
            ];
            let ghost base = concat_blocks(blocks.subrange(0, i as int));
            let ghost pre_a = out.deep_view();
            out.push(String::new());
            proof {
                assert(out.deep_view() =~= pre_a.push(Seq::<char>::empty()));
            }
            let name_copy = String::from_str(name.as_str());
            let ghost pre_b = out.deep_view();
            out.push(name_copy);
            proof {
                assert(out.deep_view() =~= pre_b.push(name@));
            }
            let rule = text::repeat_str("-", name.as_str().len());
            proof {
                assert(rule@ == text::repeat_seq(
                    "-"@,
                    (vstd::utf8::encode_utf8(name@).len() as usize) as nat,
                ));
            }
            let ghost pre_c = out.deep_view();
            out.push(rule);
            proof {
                assert(out.deep_view() =~= pre_c.push(text::repeat_seq(
                    "-"@,
                    (vstd::utf8::encode_utf8(name@).len() as usize) as nat,
                )));
                assert(out.deep_view() =~= base + header3);
                assert(results_lines(views(results@).subrange(0, 0), verbose) =~= Seq::<
                    Seq<char>,
                >::empty());
                assert(views(results@).subrange(0, 0) =~= Seq::<CheckView>::empty());
            }
            let m = results.len();
            let mut j: usize = 0;
            while j < m
                invariant
                    m == results@.len(),
                    0 <= j <= m,
                    out.deep_view() == base + header3 + results_lines(
                        views(results@).subrange(0, j as int),
                        verbose,
                    ),
                decreases m - j,
            {
                let c = &results[j];
                let ghost cv = views(results@)[j as int];
                let line = result_line_string(c);
                let ghost pre1 = out.deep_view();
                out.push(line);
                proof {
                    assert(out.deep_view() =~= pre1.push(result_line(cv)));
                }
                let ghost pre2 = out.deep_view();
                let mut shown = false;
                proof {
                    assert(cv.details == match c.details {
                        Some(ref d) => Some(d@),
                        None => None,
                    });
                }
                match &c.details {
                    Some(d) => {
                        let show = verbose || matches!(
                            c.status,
                            CheckStatus::Fail | CheckStatus::Warning | CheckStatus::Error,
                        );
                        if show {
                            shown = true;
                            let ls = text::split_lines(d.as_str());
                            let ghost mapped = text::lines_spec(d@).map_values(
                                |l: Seq<char>| "      "@ + l,
                            );
                            let nl = ls.len();
                            let mut t: usize = 0;
                            proof {
                                assert(mapped.subrange(0, 0) =~= Seq::<Seq<char>>::empty());
                                assert(pre2 + mapped.subrange(0, 0) =~= pre2);
                            }
                            while t < nl
                                invariant
                                    nl == ls@.len(),
                                    ls.deep_view() == text::lines_spec(d@),
                                    mapped == text::lines_spec(d@).map_values(
                                        |l: Seq<char>| "      "@ + l,
                                    ),
                                    0 <= t <= nl,
                                    out.deep_view() == pre2 + mapped.subrange(0, t as int),
                                decreases nl - t,
                            {
                                let mut padded = String::from_str("      ");
                                padded.append(ls[t].as_str());
                                let ghost pre3 = out.deep_view();
                                out.push(padded);
                                proof {
                                    assert(mapped[t as int] == "      "@ + ls.deep_view()[
                                        t as int
                                    ]);
                                    assert(out.deep_view() =~= pre3.push(mapped[t as int]));
                                    assert(pre3.push(mapped[t as int]) =~= pre2 + mapped.subrange(
                                        0,
                                        t + 1,
                                    ));
                                }
                                t += 1;
                            }
                            proof {
                                assert(mapped.subrange(0, nl as int) =~= mapped);
                            }
                        }
                    },
                    None => {},
                }
                proof {
                    if shown {
                        assert(out.deep_view() =~= pre2 + detail_lines(cv, verbose));
                    } else {
                        assert(detail_lines(cv, verbose) =~= Seq::<Seq<char>>::empty());
                        assert(out.deep_view() =~= pre2 + detail_lines(cv, verbose));
                    }
                    let sub1 = views(results@).subrange(0, j + 1);
                    assert(sub1.drop_last() =~= views(results@).subrange(0, j as int));
                    assert(sub1.last() == cv);
                    assert(out.deep_view() =~= base + header3 + results_lines(sub1, verbose));
                }
                j += 1;
            }
            proof {
                assert(views(results@).subrange(0, m as int) =~= views(results@));
                assert(header3 + results_lines(views(results@), verbose) =~= section_lines(
                    name@,
                    lookup(self@.sections, name@),
                    verbose,
                ));
                assert(blocks[i as int] == section_lines(
                    self@.order[i as int],
                    lookup(self@.sections, self@.order[i as int]),
                    verbose,
                ));
                assert(blocks.subrange(0, i + 1).drop_last() =~= blocks.subrange(0, i as int));
                assert(blocks.subrange(0, i + 1).last() == blocks[i as int]);
                assert(out.deep_view() =~= concat_blocks(blocks.subrange(0, i + 1)));
            }
            i += 1;
        }
        proof {
            assert(blocks.subrange(0, nord as int) =~= blocks);
        }
        let has_f = !self.is_compatible();
        let has_w = self.has_warning();
        let ghost sbase = out.deep_view();
        out.push(String::new());
        out.push(text::repeat_str("=", 50));
        out.push(String::from_str("Summary"));
        out.push(text::repeat_str("=", 50));
        if has_f {
            out.push(String::from_str("❌ XDP compatibility check FAILED"));
            out.push(String::from_str("   Some critical requirements are not met."));
            out.push(String::from_str("   Please address the issues marked with ✗ above."));
        } else if has_w {
            out.push(String::from_str("⚠️  XDP compatibility check PASSED with warnings"));
            out.push(String::from_str("   System supports XDP but some optimizations are missing."));
            out.push(String::from_str("   Review warnings marked with ⚠ for better performance."));
        } else {
            out.push(String::from_str("✅ XDP compatibility check PASSED"));
            out.push(String::from_str("   System is ready for XDP deployment!"));
        }
        if !verbose && (has_f || has_w) {
            out.push(String::new());
            out.push(String::from_str("💡 Run with --verbose for detailed information"));
        }
        proof {
            assert(out.deep_view() =~= sbase + summary_lines(has_f, has_w, verbose));
            assert(out.deep_view() =~= render_human_spec(self@, verbose));
        }
        out
    }
}

// ---------------------------------------------------------------------------
// Laws relating the verdict, the counts and the rendering
// ---------------------------------------------------------------------------

/// The severities of all results across all groups, as a multiset.
pub open spec fn severities(rv: ReportView) -> Multiset<CheckStatus> {
    flat_sections(rv.sections).map_values(|c: CheckView| c.status).to_multiset()
}

/// Counting a severity equals its cardinality in the multiset of severities.
pub proof fn lemma_count_is_multiset_count(s: Seq<CheckView>, st: CheckStatus)
    ensures
        count_status(s, st) == s.map_values(|c: CheckView| c.status).to_multiset().count(st),
    decreases s.len(),
{
    let m = s.map_values(|c: CheckView| c.status);
    if s.len() == 0 {
        m.to_multiset_ensures();
        assert(!m.contains(st));
    } else {
        let dl = s.drop_last();
        lemma_count_is_multiset_count(dl, st);
        let mdl = dl.map_values(|c: CheckView| c.status);
        mdl.to_multiset_ensures();
        assert(m =~= mdl.push(s.last().status));
        assert(mdl.push(s.last().status).to_multiset() =~= mdl.to_multiset().insert(
            s.last().status,
        ));
    }
}

/// A severity is counted at all exactly when some result carries it.
pub proof fn lemma_count_pos_iff_exists(s: Seq<CheckView>, st: CheckStatus)
    ensures
        (count_status(s, st) > 0) <==> (exists|t: int|
            0 <= t < s.len() && (#[trigger] s[t]).status == st),
    decreases s.len(),
{
    if s.len() > 0 {
        let dl = s.drop_last();
        lemma_count_pos_iff_exists(dl, st);
        if count_status(s, st) > 0 {
            if s.last().status == st {
                assert(s[s.len() - 1].status == st);
            } else {
                let t = choose|t: int| 0 <= t < dl.len() && (#[trigger] dl[t]).status == st;
                assert(s[t].status == st);
            }
        }
        if exists|t: int| 0 <= t < s.len() && (#[trigger] s[t]).status == st {
            let t = choose|t: int| 0 <= t < s.len() && (#[trigger] s[t]).status == st;
            if t < s.len() - 1 {
                assert(dl[t].status == st);
            }
        }
    }
}

/// A severity occurs in the flattening exactly when it occurs in some group.
proof fn lemma_flat_has_status(sections: Seq<(Seq<char>, Seq<CheckView>)>, st: CheckStatus)
    ensures
        has_status(sections, st) <==> count_status(flat_sections(sections), st) > 0,
    decreases sections.len(),
{
    if sections.len() == 0 {
        assert(!has_status(sections, st));
    } else {
        let dl = sections.drop_last();
        let lastr = sections.last().1;
        lemma_flat_has_status(dl, st);
        lemma_count_concat(flat_sections(dl), lastr, st);
        lemma_count_pos_iff_exists(lastr, st);
        if has_status(sections, st) {
            let (i, j) = choose|i: int, j: int|
                0 <= i < sections.len() && 0 <= j < sections[i].1.len() && (
                #[trigger] sections[i].1[j]).status == st;
            if i < sections.len() - 1 {
                assert(dl[i].1[j].status == st);
                assert(has_status(dl, st));
            } else {
                assert(lastr[j].status == st);
            }
        }
        if count_status(flat_sections(sections), st) > 0 {
            if count_status(flat_sections(dl), st) > 0 {
                let (i, j) = choose|i: int, j: int|
                    0 <= i < dl.len() && 0 <= j < dl[i].1.len() && (
                    #[trigger] dl[i].1[j]).status == st;
                assert(sections[i].1[j].status == st);
                assert(has_status(sections, st));
            } else {
                let j = choose|j: int| 0 <= j < lastr.len() && (#[trigger] lastr[j]).status == st;
                assert(sections[sections.len() - 1].1[j].status == st);
                assert(has_status(sections, st));
            }
        }
    }
}

/// The report is compatible exactly when the multiset of severities across
/// all groups holds no `Fail` and no `Error`.
pub proof fn lemma_compatible_iff_no_failing_severity(rv: ReportView)
    ensures
        compatible(rv) <==> (severities(rv).count(CheckStatus::Fail) == 0 && severities(rv).count(
            CheckStatus::Error,
        ) == 0),
{
    let flat = flat_sections(rv.sections);
    lemma_count_is_multiset_count(flat, CheckStatus::Fail);
    lemma_count_is_multiset_count(flat, CheckStatus::Error);
    lemma_flat_has_status(rv.sections, CheckStatus::Fail);
    lemma_flat_has_status(rv.sections, CheckStatus::Error);
    if compatible(rv) {
        if has_status(rv.sections, CheckStatus::Fail) {
            let (i, j) = choose|i: int, j: int|
                0 <= i < rv.sections.len() && 0 <= j < rv.sections[i].1.len() && (
                #[trigger] rv.sections[i].1[j]).status == CheckStatus::Fail;
            assert(rv.sections[i].1[j].status.spec_is_failure());
            assert(false);
        }
        if has_status(rv.sections, CheckStatus::Error) {
            let (i, j) = choose|i: int, j: int|
                0 <= i < rv.sections.len() && 0 <= j < rv.sections[i].1.len() && (
                #[trigger] rv.sections[i].1[j]).status == CheckStatus::Error;
            assert(rv.sections[i].1[j].status.spec_is_failure());
            assert(false);
        }
    }
    if !compatible(rv) {
        let (i, j) = choose|i: int, j: int|
            0 <= i < rv.sections.len() && 0 <= j < rv.sections[i].1.len() && (
            #[trigger] rv.sections[i].1[j]).status.spec_is_failure();
        if rv.sections[i].1[j].status == CheckStatus::Fail {
            assert(has_status(rv.sections, CheckStatus::Fail));
        } else {
            assert(rv.sections[i].1[j].status == CheckStatus::Error);
            assert(has_status(rv.sections, CheckStatus::Error));
        }
    }
}

/// The entry written by an upsert is present in the result.
proof fn lemma_upsert_has_entry(
    sections: Seq<(Seq<char>, Seq<CheckView>)>,
    name: Seq<char>,
    results: Seq<CheckView>,
)
    ensures
        exists|k: int|
            0 <= k < upsert(sections, name, results).len() && #[trigger] upsert(
                sections,
                name,
                results,
            )[k] == (name, results),
    decreases sections.len(),
{
    let up = upsert(sections, name, results);
    if sections.len() == 0 {
        assert(up[0] == (name, results));
    } else if sections.first().0 == name {
        assert(up[0] == (name, results));
    } else {
        lemma_upsert_has_entry(sections.drop_first(), name, results);
        let t = upsert(sections.drop_first(), name, results);
        let k = choose|k: int| 0 <= k < t.len() && #[trigger] t[k] == (name, results);
        assert(up[k + 1] == (name, results));
    }
}

/// Adding a group that carries one failing result makes any report
/// incompatible, whatever the group name or the position of the result.
pub proof fn lemma_add_failing_flips(
    rv: ReportView,
    name: Seq<char>,
    results: Seq<CheckView>,
    j: int,
)
    requires
        0 <= j < results.len(),
        results[j].status.spec_is_failure(),
    ensures
        !compatible(
            ReportView { order: rv.order.push(name), sections: upsert(rv.sections, name, results) },
        ),
{
    let post = ReportView {
        order: rv.order.push(name),
        sections: upsert(rv.sections, name, results),
    };
    lemma_upsert_has_entry(rv.sections, name, results);
    let k = choose|k: int|
        0 <= k < upsert(rv.sections, name, results).len() && #[trigger] upsert(
            rv.sections,
            name,
            results,
        )[k] == (name, results);
    assert(post.sections[k].1[j].status.spec_is_failure());
}

/// Looking up the upserted name finds the new results.
proof fn lemma_lookup_upsert_same(
    sections: Seq<(Seq<char>, Seq<CheckView>)>,
    name: Seq<char>,
    results: Seq<CheckView>,
)
    ensures
        lookup(upsert(sections, name, results), name) == results,
    decreases sections.len(),
{
    let up = upsert(sections, name, results);
    if sections.len() == 0 {
    } else if sections.first().0 == name {
        assert(up.first() == (name, results));
    } else {
        lemma_lookup_upsert_same(sections.drop_first(), name, results);
        assert(up.first() == sections.first());
        assert(up.drop_first() =~= upsert(sections.drop_first(), name, results));
    }
}

/// Looking up any other name is unchanged by an upsert.
proof fn lemma_lookup_upsert_other(
    sections: Seq<(Seq<char>, Seq<CheckView>)>,
    name: Seq<char>,
    results: Seq<CheckView>,
    other: Seq<char>,
)
    requires
        other != name,
    ensures
        lookup(upsert(sections, name, results), other) == lookup(sections, other),
    decreases sections.len(),
{
    let up = upsert(sections, name, results);
    if sections.len() == 0 {
        assert(up.first() == (name, results));
        assert(up.drop_first() =~= Seq::<(Seq<char>, Seq<CheckView>)>::empty());
        assert(lookup(up, other) == lookup(up.drop_first(), other));
        assert(lookup(up.drop_first(), other) == Seq::<CheckView>::empty());
    } else if sections.first().0 == name {
        assert(up.first() == (name, results));
        assert(up.drop_first() =~= sections.drop_first());
        assert(lookup(up, other) == lookup(sections.drop_first(), other));
        assert(lookup(sections, other) == lookup(sections.drop_first(), other));
    } else {
        lemma_lookup_upsert_other(sections.drop_first(), name, results, other);
        assert(up.first() == sections.first());
        assert(up.drop_first() =~= upsert(sections.drop_first(), name, results));
        if sections.first().0 == other {
            assert(lookup(up, other) == up.first().1);
            assert(lookup(sections, other) == sections.first().1);
        } else {
            assert(lookup(up, other) == lookup(up.drop_first(), other));
            assert(lookup(sections, other) == lookup(sections.drop_first(), other));
        }
    }
}

/// Adding a group under a fresh name appends exactly that group's block to
/// the human rendering: by induction over the calls, the rendering visits
/// the groups in the exact order they were added, however many results each
/// holds.
pub proof fn lemma_render_appends_block(
    rv: ReportView,
    name: Seq<char>,
    results: Seq<CheckView>,
    verbose: bool,
)
    requires
        report_wf(rv),
        !has_key(rv.sections, name),
    ensures
        render_blocks(
            ReportView { order: rv.order.push(name), sections: upsert(rv.sections, name, results) },
            verbose,
        ) == render_blocks(rv, verbose).push(section_lines(name, results, verbose)),
{
    let post = ReportView {
        order: rv.order.push(name),
        sections: upsert(rv.sections, name, results),
    };
    assert forall|i: int| 0 <= i < rv.order.len() implies render_blocks(post, verbose)[i]
        == render_blocks(rv, verbose)[i] by {
        let w = choose|w: int|
            0 <= w < rv.sections.len() && (#[trigger] rv.sections[w]).0 == rv.order[i];
        assert(rv.order[i] != name);
        lemma_lookup_upsert_other(rv.sections, name, results, rv.order[i]);
    }
    lemma_lookup_upsert_same(rv.sections, name, results);
    assert(render_blocks(post, verbose) =~= render_blocks(rv, verbose).push(
        section_lines(name, results, verbose),
    ));
}

/// The per-severity counts are exactly the cardinalities of each severity
/// in the multiset of all results' severities across all groups.
pub proof fn lemma_counts_are_cardinalities(rv: ReportView)
    ensures
        count_status(flat_sections(rv.sections), CheckStatus::Pass) == severities(rv).count(
            CheckStatus::Pass,
        ),
        count_status(flat_sections(rv.sections), CheckStatus::Fail) == severities(rv).count(
            CheckStatus::Fail,
        ),
        count_status(flat_sections(rv.sections), CheckStatus::Warning) == severities(rv).count(
            CheckStatus::Warning,
        ),
        count_status(flat_sections(rv.sections), CheckStatus::Info) == severities(rv).count(
            CheckStatus::Info,
        ),
        count_status(flat_sections(rv.sections), CheckStatus::Error) == severities(rv).count(
            CheckStatus::Error,
        ),
{
    let flat = flat_sections(rv.sections);
    lemma_count_is_multiset_count(flat, CheckStatus::Pass);
    lemma_count_is_multiset_count(flat, CheckStatus::Fail);
    lemma_count_is_multiset_count(flat, CheckStatus::Warning);
    lemma_count_is_multiset_count(flat, CheckStatus::Info);
    lemma_count_is_multiset_count(flat, CheckStatus::Error);
}

} // verus!
