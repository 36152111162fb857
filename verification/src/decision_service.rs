//! Architecture decision records: recording decisions, amending them,
//! listing them newest first, and counting them.
use vstd::prelude::*;
use crate::text::{owned, str_eq, lex_lt, lex_less, lemma_lex_lt_asym, to_lowercase, unicode_lowercase};
use crate::impact_analysis_service::string_views;
use crate::clock::{now_rfc3339, new_uuid_simple};
use crate::errors::{CellError, CellResult};

verus! {

broadcast use vstd::seq_lib::group_to_multiset_ensures;

/// What a decision is about.
#[derive(Debug, Clone, Copy, PartialEq, Eq, Structural)]
pub enum DecisionCategory {
    Architecture,
    Technology,
    Process,
    Tooling,
    Design,
    Testing,
    Deployment,
    Security,
    Performance,
    Other,
}

/// Where a decision stands.
#[derive(Debug, Clone, Copy, PartialEq, Eq, Structural)]
pub enum DecisionStatus {
    Proposed,
    Accepted,
    Rejected,
    Deprecated,
    Superseded,
}

/// An option that was considered.
#[derive(Debug, Clone)]
pub struct Alternative {
    pub name: String,
    pub description: String,
    pub pros: Vec<String>,
    pub cons: Vec<String>,
}

/// One recorded decision; the time stamps are RFC 3339 texts in UTC.
#[derive(Debug, Clone)]
pub struct DecisionRecord {
    pub id: String,
    pub title: String,
    pub context: String,
    pub decision: String,
    pub rationale: String,
    pub category: DecisionCategory,
    pub status: DecisionStatus,
    pub made_by: Option<String>,
    pub made_at: String,
    pub updated_at: String,
    pub revoked_at: Option<String>,
    pub alternatives: Vec<Alternative>,
    pub tags: Vec<String>,
    pub related_files: Vec<String>,
}

/// Counts over the recorded decisions.
#[derive(Debug, Clone)]
pub struct DecisionMetrics {
    pub total_decisions: usize,
    pub accepted_count: usize,
    pub rejected_count: usize,
    pub superseded_count: usize,
    pub by_category: Vec<(DecisionCategory, usize)>,
    pub last_7_days: usize,
    pub last_30_days: usize,
}

/// Where decisions are kept; implemented by the users of the service.
/// Each request is answered as the store decides; the spec functions name
/// the answers it may give, and nothing more is assumed of them. A store
/// that does not describe its answers may give any (the default `true`).
pub trait DecisionStorePort {
    /// `r` is an answer the store may give to saving `decision` under `path`.
    closed spec fn saves(&self, path: Seq<char>, decision: DecisionRecord, r: CellResult<()>) -> bool {
        true
    }

    /// `r` is an answer the store may give to loading every decision under `path`.
    closed spec fn loads_all(&self, path: Seq<char>, r: CellResult<Vec<DecisionRecord>>) -> bool {
        true
    }

    /// `r` is an answer the store may give to loading decision `id` under `path`.
    closed spec fn loads_by_id(&self, path: Seq<char>, id: Seq<char>, r: CellResult<Option<DecisionRecord>>) -> bool {
        true
    }

    fn save(&self, path: &str, decision: &DecisionRecord) -> (r: CellResult<()>)
        ensures
            self.saves(path@, *decision, r),
    ;

    fn load_all(&self, path: &str) -> (r: CellResult<Vec<DecisionRecord>>)
        ensures
            self.loads_all(path@, r),
    ;

    fn load_by_id(&self, path: &str, id: &str) -> (r: CellResult<Option<DecisionRecord>>)
        ensures
            self.loads_by_id(path@, id@, r),
    ;

    /// `r` is an answer the store may give when asked for the counts under `path`.
    closed spec fn gives_metrics(&self, path: Seq<char>, r: CellResult<DecisionMetrics>) -> bool {
        true
    }

    fn delete(&self, path: &str, id: &str) -> CellResult<()>;

    fn get_metrics(&self, path: &str) -> (r: CellResult<DecisionMetrics>)
        ensures
            self.gives_metrics(path@, r),
    ;
}

/// The outcome of a request that ends by saving `v`: `v` once the save
/// succeeds, the store's error otherwise.
pub open spec fn saved_outcome<V>(s: CellResult<()>, v: V, r: CellResult<V>) -> bool {
    match s {
        Ok(_) => r == Ok::<V, CellError>(v),
        Err(e) => r == Err::<V, CellError>(e),
    }
}

pub open spec fn opt_str(o: Option<String>) -> Option<Seq<char>> {
    match o {
        Some(s) => Some(s@),
        None => None,
    }
}

/// A freshly recorded decision: accepted, made and updated at the same
/// time, with nothing attached yet.
pub open spec fn fresh_record(r: DecisionRecord, title: Seq<char>, context: Seq<char>, decision: Seq<char>,
    rationale: Seq<char>, category: DecisionCategory, made_by: Option<Seq<char>>) -> bool {
    &&& r.title@ == title
    &&& r.context@ == context
    &&& r.decision@ == decision
    &&& r.rationale@ == rationale
    &&& r.category == category
    &&& r.status == DecisionStatus::Accepted
    &&& opt_str(r.made_by) == made_by
    &&& r.updated_at@ == r.made_at@
    &&& r.revoked_at is None
    &&& r.alternatives@.len() == 0
    &&& r.tags@.len() == 0
    &&& r.related_files@.len() == 0
}

fn opt_owned(s: Option<&str>) -> (r: Option<String>)
    ensures
        opt_str(r) == match s {
            Some(t) => Some(t@),
            None => None::<Seq<char>>,
        },
{
    match s {
        Some(t) => Some(owned(t)),
        None => None,
    }
}

/// A new accepted decision with the given identifier and time stamp.
pub fn new_record(id: String, now: String, title: &str, context: &str, decision: &str, rationale: &str,
    category: DecisionCategory, made_by: Option<&str>) -> (r: DecisionRecord)
    ensures
        fresh_record(r, title@, context@, decision@, rationale@, category, match made_by {
            Some(t) => Some(t@),
            None => None,
        }),
        r.id@ == id@,
        r.made_at@ == now@,
{
    let updated = now.clone();
    DecisionRecord {
        id,
        title: owned(title),
        context: owned(context),
        decision: owned(decision),
        rationale: owned(rationale),
        category,
        status: DecisionStatus::Accepted,
        made_by: opt_owned(made_by),
        made_at: now,
        updated_at: updated,
        revoked_at: None,
        alternatives: Vec::new(),
        tags: Vec::new(),
        related_files: Vec::new(),
    }
}

/// The decisions of the category and status asked for (each when given).
pub open spec fn selected(ds: Seq<DecisionRecord>, category: Option<DecisionCategory>, status: Option<DecisionStatus>)
    -> Seq<DecisionRecord>
    decreases ds.len(),
{
    if ds.len() == 0 {
        Seq::empty()
    } else {
        let rest = selected(ds.drop_last(), category, status);
        let d = ds.last();
        let keep = (category matches Some(c) ==> d.category == c) && (status matches Some(s) ==> d.status == s);
        if keep { rest.push(d) } else { rest }
    }
}

pub open spec fn made_no_earlier(ds: Seq<DecisionRecord>, i: int) -> bool {
    !lex_lt(ds[i].made_at@, ds[i + 1].made_at@)
}

/// Newest first, by the time stamps of the decisions.
pub open spec fn newest_made_first(ds: Seq<DecisionRecord>) -> bool {
    forall|i: int| 0 <= i < ds.len() - 1 ==> #[trigger] made_no_earlier(ds, i)
}

/// A stable sort of decisions, newest first.
pub fn sort_by_made_at(ds: Vec<DecisionRecord>) -> (r: Vec<DecisionRecord>)
    ensures
        r@.to_multiset() == ds@.to_multiset(),
        newest_made_first(r@),
{
    let ghost input = ds@;
    let mut rest = ds;
    let mut out: Vec<DecisionRecord> = Vec::new();
    let n = rest.len();
    let mut i: usize = 0;
    while i < n
        invariant
            n == input.len(),
            i <= n,
            rest@ == input.skip(i as int),
            out@.to_multiset() == input.take(i as int).to_multiset(),
            newest_made_first(out@),
        decreases n - i,
    {
        let d = rest.remove(0);
        assert(d == input[i as int]);
        assert(input.skip(i + 1) =~= input.skip(i as int).remove(0));
        assert(input.take(i + 1) =~= input.take(i as int).push(d));
        let mut p: usize = 0;
        while p < out.len()
            invariant
                p <= out@.len(),
                forall|j: int| 0 <= j < p ==> !lex_lt(#[trigger] out@[j].made_at@, d.made_at@),
            ensures
                p <= out@.len(),
                forall|j: int| 0 <= j < p ==> !lex_lt(#[trigger] out@[j].made_at@, d.made_at@),
                p < out@.len() ==> lex_lt(out@[p as int].made_at@, d.made_at@),
            decreases out@.len() - p,
        {
            if lex_less(out[p].made_at.as_str(), d.made_at.as_str()) {
                break;
            }
            p = p + 1;
        }
        let ghost before = out@;
        proof {
            if p < before.len() {
                lemma_lex_lt_asym(before[p as int].made_at@, d.made_at@);
            }
        }
        out.insert(p, d);
        proof {
            assert(out@ == before.insert(p as int, d));
            assert forall|j: int| 0 <= j < out@.len() - 1 implies #[trigger] made_no_earlier(out@, j) by {
                if j < p as int - 1 {
                    assert(made_no_earlier(before, j));
                } else if j == p as int - 1 {
                    assert(!lex_lt(before[j].made_at@, d.made_at@));
                } else if j == p as int {
                    assert(lex_lt(before[p as int].made_at@, d.made_at@));
                } else {
                    assert(made_no_earlier(before, j - 1));
                }
            }
        }
        i = i + 1;
    }
    assert(input.take(n as int) =~= input);
    out
}

/// The decisions of the category and status asked for, newest first.
pub fn select_and_sort(decisions: Vec<DecisionRecord>, category: Option<DecisionCategory>, status: Option<DecisionStatus>)
    -> (r: Vec<DecisionRecord>)
    ensures
        r@.to_multiset() == selected(decisions@, category, status).to_multiset(),
        newest_made_first(r@),
{
    let ghost input = decisions@;
    let mut rest = decisions;
    let mut kept: Vec<DecisionRecord> = Vec::new();
    let n = rest.len();
    let mut i: usize = 0;
    while i < n
        invariant
            n == input.len(),
            i <= n,
            rest@ == input.skip(i as int),
            kept@ == selected(input.take(i as int), category, status),
        decreases n - i,
    {
        let d = rest.remove(0);
        assert(input.take(i + 1).drop_last() =~= input.take(i as int));
        assert(d == input[i as int]);
        assert(input.skip(i + 1) =~= input.skip(i as int).remove(0));
        let cat_ok = match category {
            Some(c) => d.category == c,
            None => true,
        };
        let status_ok = match status {
            Some(s) => d.status == s,
            None => true,
        };
        if cat_ok && status_ok {
            kept.push(d);
        }
        i = i + 1;
    }
    assert(input.take(n as int) =~= input);
    sort_by_made_at(kept)
}

/// `d` with one more alternative, updated at `now`.
pub fn with_alternative(d: DecisionRecord, alt: Alternative, now: String) -> (r: DecisionRecord)
    ensures
        r.alternatives@ == d.alternatives@.push(alt),
        r.updated_at@ == now@,
        r == (DecisionRecord { alternatives: r.alternatives, updated_at: r.updated_at, ..d }),
{
    let mut d = d;
    d.alternatives.push(alt);
    d.updated_at = now;
    d
}

/// Adds `x` to `v` unless it is there already; tells whether it was added.
fn add_unique(v: &mut Vec<String>, x: &str) -> (added: bool)
    ensures
        added == !string_views(old(v)@).contains(x@),
        string_views(final(v)@) == if added { string_views(old(v)@).push(x@) } else { string_views(old(v)@) },
        !added ==> *final(v) == *old(v),
        added ==> final(v)@.drop_last() == old(v)@,
{
    let ghost sv = string_views(v@);
    for i in 0..v.len()
        invariant
            sv == string_views(v@),
            forall|k: int| 0 <= k < i ==> sv[k] != x@,
    {
        assert(sv[i as int] == v@[i as int]@);
        if str_eq(v[i].as_str(), x) {
            return false;
        }
    }
    let ghost before = v@;
    v.push(owned(x));
    assert(string_views(v@) =~= sv.push(x@));
    assert(v@.drop_last() =~= before);
    true
}

/// `d` with the new status; a deprecated or superseded decision is revoked
/// at `now`.
pub fn with_status(d: DecisionRecord, status: DecisionStatus, now: String) -> (r: DecisionRecord)
    ensures
        r.status == status,
        r.updated_at@ == now@,
        (status == DecisionStatus::Deprecated || status == DecisionStatus::Superseded) ==> opt_str(r.revoked_at) == Some(now@),
        !(status == DecisionStatus::Deprecated || status == DecisionStatus::Superseded) ==> r.revoked_at == d.revoked_at,
        r == (DecisionRecord { status: r.status, updated_at: r.updated_at, revoked_at: r.revoked_at, ..d }),
{
    let mut d = d;
    d.status = status;
    if status == DecisionStatus::Deprecated || status == DecisionStatus::Superseded {
        d.revoked_at = Some(now.clone());
    }
    d.updated_at = now;
    d
}

/// The counts over the decisions: by status, by category (in the order the
/// categories first appear), and those made since each cut-off time.
pub open spec fn count_status(ds: Seq<DecisionRecord>, s: DecisionStatus) -> nat
    decreases ds.len(),
{
    if ds.len() == 0 {
        0
    } else {
        count_status(ds.drop_last(), s) + if ds.last().status == s { 1nat } else { 0nat }
    }
}

pub open spec fn count_since(ds: Seq<DecisionRecord>, cutoff: Seq<char>) -> nat
    decreases ds.len(),
{
    if ds.len() == 0 {
        0
    } else {
        count_since(ds.drop_last(), cutoff) + if !lex_lt(ds.last().made_at@, cutoff) { 1nat } else { 0nat }
    }
}

pub open spec fn category_tally(ds: Seq<DecisionRecord>) -> Seq<(DecisionCategory, nat)>
    decreases ds.len(),
{
    if ds.len() == 0 {
        Seq::empty()
    } else {
        let t = category_tally(ds.drop_last());
        let c = ds.last().category;
        let k = find_category(t, c);
        if k < t.len() { t.update(k, (c, t[k].1 + 1)) } else { t.push((c, 1)) }
    }
}

pub open spec fn find_category(t: Seq<(DecisionCategory, nat)>, c: DecisionCategory) -> int
    decreases t.len(),
{
    if t.len() == 0 {
        0
    } else if t[0].0 == c {
        0
    } else {
        1 + find_category(t.drop_first(), c)
    }
}

pub open spec fn tally_view(v: Seq<(DecisionCategory, usize)>) -> Seq<(DecisionCategory, nat)> {
    v.map_values(|p: (DecisionCategory, usize)| (p.0, p.1 as nat))
}

proof fn lemma_find_category_at(t: Seq<(DecisionCategory, nat)>, c: DecisionCategory, m: int)
    requires
        0 <= m <= t.len(),
        forall|j: int| 0 <= j < m ==> (#[trigger] t[j]).0 != c,
        m == t.len() || t[m].0 == c,
    ensures
        find_category(t, c) == m,
    decreases m,
{
    if m > 0 {
        assert forall|j: int| 0 <= j < m - 1 implies (#[trigger] t.drop_first()[j]).0 != c by {
            assert(t.drop_first()[j] == t[j + 1]);
        }
        if m < t.len() {
            assert(t.drop_first()[m - 1] == t[m]);
        }
        lemma_find_category_at(t.drop_first(), c, m - 1);
    }
}

/// The counts over the decisions, with decisions made at or after each
/// cut-off counted as recent.
pub fn calculate_decision_metrics(decisions: &Vec<DecisionRecord>, seven_days_ago: &str, thirty_days_ago: &str)
    -> (r: DecisionMetrics)
    ensures
        r.total_decisions == decisions@.len(),
        r.accepted_count == count_status(decisions@, DecisionStatus::Accepted),
        r.rejected_count == count_status(decisions@, DecisionStatus::Rejected),
        r.superseded_count == count_status(decisions@, DecisionStatus::Superseded),
        tally_view(r.by_category@) == category_tally(decisions@),
        r.last_7_days == count_since(decisions@, seven_days_ago@),
        r.last_30_days == count_since(decisions@, thirty_days_ago@),
{
    let ghost ds = decisions@;
    let mut accepted: usize = 0;
    let mut rejected: usize = 0;
    let mut superseded: usize = 0;
    let mut week: usize = 0;
    let mut month: usize = 0;
    let mut by_category: Vec<(DecisionCategory, usize)> = Vec::new();
    let n = decisions.len();
    for i in 0..n
        invariant
            n == ds.len(),
            ds == decisions@,
            accepted == count_status(ds.take(i as int), DecisionStatus::Accepted),
            rejected == count_status(ds.take(i as int), DecisionStatus::Rejected),
            superseded == count_status(ds.take(i as int), DecisionStatus::Superseded),
            week == count_since(ds.take(i as int), seven_days_ago@),
            month == count_since(ds.take(i as int), thirty_days_ago@),
            tally_view(by_category@) == category_tally(ds.take(i as int)),
            accepted <= i && rejected <= i && superseded <= i && week <= i && month <= i,
            forall|k: int| 0 <= k < by_category@.len() ==> (#[trigger] by_category@[k]).1 <= i,
    {
        assert(ds.take(i + 1).drop_last() =~= ds.take(i as int));
        let d = &decisions[i];
        match d.status {
            DecisionStatus::Accepted => { accepted = accepted + 1; },
            DecisionStatus::Rejected => { rejected = rejected + 1; },
            DecisionStatus::Superseded => { superseded = superseded + 1; },
            _ => {},
        }
        if !lex_less(d.made_at.as_str(), seven_days_ago) {
            week = week + 1;
        }
        if !lex_less(d.made_at.as_str(), thirty_days_ago) {
            month = month + 1;
        }
        let ghost t = tally_view(by_category@);
        let mut k: usize = 0;
        while k < by_category.len()
            invariant
                k <= by_category@.len(),
                t == tally_view(by_category@),
                forall|j: int| 0 <= j < k ==> (#[trigger] t[j]).0 != d.category,
            ensures
                k <= by_category@.len(),
                forall|j: int| 0 <= j < k ==> (#[trigger] t[j]).0 != d.category,
                k < by_category@.len() ==> t[k as int].0 == d.category,
            decreases by_category@.len() - k,
        {
            if by_category[k].0 == d.category {
                break;
            }
            k = k + 1;
        }
        proof {
            lemma_find_category_at(t, d.category, k as int);
        }
        if k < by_category.len() {
            let (c, m) = by_category.remove(k);
            by_category.insert(k, (c, m + 1));
            assert(tally_view(by_category@) =~= t.update(k as int, (d.category, t[k as int].1 + 1)));
        } else {
            by_category.push((d.category, 1));
            assert(tally_view(by_category@) =~= t.push((d.category, 1)));
        }
    }
    assert(ds.take(n as int) =~= ds);
    DecisionMetrics {
        total_decisions: n,
        accepted_count: accepted,
        rejected_count: rejected,
        superseded_count: superseded,
        by_category,
        last_7_days: week,
        last_30_days: month,
    }
}

/// The category a short or full name stands for.
pub open spec fn category_named(s: Seq<char>) -> Option<DecisionCategory> {
    if s == "arch"@ || s == "architecture"@ {
        Some(DecisionCategory::Architecture)
    } else if s == "tech"@ || s == "technology"@ {
        Some(DecisionCategory::Technology)
    } else if s == "process"@ {
        Some(DecisionCategory::Process)
    } else if s == "tool"@ || s == "tooling"@ {
        Some(DecisionCategory::Tooling)
    } else if s == "design"@ {
        Some(DecisionCategory::Design)
    } else if s == "test"@ || s == "testing"@ {
        Some(DecisionCategory::Testing)
    } else if s == "deploy"@ || s == "deployment"@ {
        Some(DecisionCategory::Deployment)
    } else if s == "security"@ {
        Some(DecisionCategory::Security)
    } else if s == "perf"@ || s == "performance"@ {
        Some(DecisionCategory::Performance)
    } else if s == "other"@ {
        Some(DecisionCategory::Other)
    } else {
        None
    }
}

/// The status a name (or its verb) stands for, in any case.
pub open spec fn status_named(s: Seq<char>) -> Option<DecisionStatus> {
    let l = unicode_lowercase(s);
    if l == "proposed"@ || l == "propose"@ {
        Some(DecisionStatus::Proposed)
    } else if l == "accepted"@ || l == "accept"@ {
        Some(DecisionStatus::Accepted)
    } else if l == "rejected"@ || l == "reject"@ {
        Some(DecisionStatus::Rejected)
    } else if l == "deprecated"@ || l == "deprecate"@ {
        Some(DecisionStatus::Deprecated)
    } else if l == "superseded"@ || l == "supersede"@ {
        Some(DecisionStatus::Superseded)
    } else {
        None
    }
}

/// The category named by `s`, if any.
pub fn parse_category(s: &str) -> (r: Option<DecisionCategory>)
    ensures
        r == category_named(s@),
{
    if str_eq(s, "arch") || str_eq(s, "architecture") {
        Some(DecisionCategory::Architecture)
    } else if str_eq(s, "tech") || str_eq(s, "technology") {
        Some(DecisionCategory::Technology)
    } else if str_eq(s, "process") {
        Some(DecisionCategory::Process)
    } else if str_eq(s, "tool") || str_eq(s, "tooling") {
        Some(DecisionCategory::Tooling)
    } else if str_eq(s, "design") {
        Some(DecisionCategory::Design)
    } else if str_eq(s, "test") || str_eq(s, "testing") {
        Some(DecisionCategory::Testing)
    } else if str_eq(s, "deploy") || str_eq(s, "deployment") {
        Some(DecisionCategory::Deployment)
    } else if str_eq(s, "security") {
        Some(DecisionCategory::Security)
    } else if str_eq(s, "perf") || str_eq(s, "performance") {
        Some(DecisionCategory::Performance)
    } else if str_eq(s, "other") {
        Some(DecisionCategory::Other)
    } else {
        None
    }
}

/// The status named by `s`, in any case.
pub fn parse_status(s: &str) -> (r: Option<DecisionStatus>)
    ensures
        r == status_named(s@),
{
    let l = to_lowercase(s);
    let l = l.as_str();
    if str_eq(l, "proposed") || str_eq(l, "propose") {
        Some(DecisionStatus::Proposed)
    } else if str_eq(l, "accepted") || str_eq(l, "accept") {
        Some(DecisionStatus::Accepted)
    } else if str_eq(l, "rejected") || str_eq(l, "reject") {
        Some(DecisionStatus::Rejected)
    } else if str_eq(l, "deprecated") || str_eq(l, "deprecate") {
        Some(DecisionStatus::Deprecated)
    } else if str_eq(l, "superseded") || str_eq(l, "supersede") {
        Some(DecisionStatus::Superseded)
    } else {
        None
    }
}

pub open spec fn not_found(r: CellError) -> bool {
    r matches CellError::Config(m) && m@ == "Decision not found"@
}

/// How the answer to a lookup decides: the decision found, `Decision not
/// found`, or the store's error.
pub open spec fn found_outcome(a: CellResult<Option<DecisionRecord>>, r: CellResult<DecisionRecord>) -> bool {
    match a {
        Ok(Some(d)) => r == Ok::<DecisionRecord, CellError>(d),
        Ok(None) => r matches Err(e) && not_found(e),
        Err(e) => r == Err::<DecisionRecord, CellError>(e),
    }
}

/// `d` is `d0` with the alternative added last, stamped anew.
pub open spec fn alternative_added(d0: DecisionRecord, d: DecisionRecord, name: Seq<char>, description: Seq<char>,
    pros: Seq<String>, cons: Seq<String>) -> bool {
    &&& d == (DecisionRecord { alternatives: d.alternatives, updated_at: d.updated_at, ..d0 })
    &&& d.alternatives@.drop_last() == d0.alternatives@
    &&& d.alternatives@.len() == d0.alternatives@.len() + 1
    &&& d.alternatives@.last().name@ == name
    &&& d.alternatives@.last().description@ == description
    &&& d.alternatives@.last().pros@ == pros
    &&& d.alternatives@.last().cons@ == cons
}

/// `d` is `d0` with the tag added last, stamped anew.
pub open spec fn tag_added(d0: DecisionRecord, d: DecisionRecord, tag: Seq<char>) -> bool {
    &&& d == (DecisionRecord { tags: d.tags, updated_at: d.updated_at, ..d0 })
    &&& d.tags@.drop_last() == d0.tags@
    &&& d.tags@.len() == d0.tags@.len() + 1
    &&& d.tags@.last()@ == tag
}

/// `d` is `d0` with the related file added last, stamped anew.
pub open spec fn related_file_added(d0: DecisionRecord, d: DecisionRecord, file: Seq<char>) -> bool {
    &&& d == (DecisionRecord { related_files: d.related_files, updated_at: d.updated_at, ..d0 })
    &&& d.related_files@.drop_last() == d0.related_files@
    &&& d.related_files@.len() == d0.related_files@.len() + 1
    &&& d.related_files@.last()@ == file
}

/// `d` is `d0` with the new status, stamped anew; deprecating or superseding
/// revokes it at that time.
pub open spec fn status_changed(d0: DecisionRecord, d: DecisionRecord, status: DecisionStatus) -> bool {
    &&& d == (DecisionRecord { status: status, updated_at: d.updated_at, revoked_at: d.revoked_at, ..d0 })
    &&& if status == DecisionStatus::Deprecated || status == DecisionStatus::Superseded {
        d.revoked_at matches Some(t) && t@ == d.updated_at@
    } else {
        d.revoked_at == d0.revoked_at
    }
}

/// Records and amends decisions kept in a store.
pub struct DecisionService<T: DecisionStorePort> {
    store: T,
}

impl<T: DecisionStorePort> DecisionService<T> {
    pub fn new(store: T) -> (r: Self)
        ensures
            r.store() == store,
    {
        DecisionService { store }
    }

    /// The store the service works on.
    pub closed spec fn store(&self) -> T {
        self.store
    }

    /// Records a new accepted decision and saves it.
    pub fn record_decision(&self, path: &str, title: &str, context: &str, decision: &str, rationale: &str,
        category: DecisionCategory, made_by: Option<&str>) -> (r: CellResult<DecisionRecord>)
        ensures
            r matches Ok(d) ==> fresh_record(d, title@, context@, decision@, rationale@, category, match made_by {
                Some(t) => Some(t@),
                None => None,
            }),
            exists|d: DecisionRecord, s: CellResult<()>| #[trigger] self.store().saves(path@, d, s)
                && fresh_record(d, title@, context@, decision@, rationale@, category, match made_by {
                    Some(t) => Some(t@),
                    None => None,
                }) && saved_outcome(s, d, r),
    {
        let record = new_record(new_uuid_simple(), now_rfc3339(), title, context, decision, rationale, category, made_by);
        let s = self.store.save(path, &record);
        assert(self.store().saves(path@, record, s));
        match s {
            Ok(_) => Ok(record),
            Err(e) => Err(e),
        }
    }

    fn require(&self, path: &str, decision_id: &str) -> (r: CellResult<DecisionRecord>)
        ensures
            exists|a: CellResult<Option<DecisionRecord>>| #[trigger] self.store().loads_by_id(path@, decision_id@, a)
                && found_outcome(a, r),
    {
        let a = self.store.load_by_id(path, decision_id);
        assert(self.store().loads_by_id(path@, decision_id@, a));
        proof {
            reveal_strlit("Decision not found");
        }
        match a {
            Ok(Some(d)) => Ok(d),
            Ok(None) => Err(CellError::Config(owned("Decision not found"))),
            Err(e) => Err(e),
        }
    }

    /// Adds an alternative to a decision and saves it.
    pub fn add_alternative(&self, path: &str, decision_id: &str, name: &str, description: &str, pros: Vec<String>,
        cons: Vec<String>) -> (r: CellResult<DecisionRecord>)
        ensures
            r matches Ok(d) ==> d.alternatives@.len() > 0 && d.alternatives@.last().name@ == name@
                && d.alternatives@.last().description@ == description@,
            exists|a: CellResult<Option<DecisionRecord>>| #[trigger] self.store().loads_by_id(path@, decision_id@, a)
                && match a {
                    Ok(Some(d0)) => exists|d: DecisionRecord, s: CellResult<()>| #[trigger] self.store().saves(path@, d, s)
                        && alternative_added(d0, d, name@, description@, pros@, cons@) && saved_outcome(s, d, r),
                    _ => found_outcome(a, r),
                },
    {
        let d0 = self.require(path, decision_id);
        let ghost a = choose|a: CellResult<Option<DecisionRecord>>| #[trigger] self.store().loads_by_id(path@, decision_id@, a)
            && found_outcome(a, d0);
        let d0 = match d0 {
            Ok(d) => d,
            Err(e) => {
                return Err(e);
            },
        };
        let ghost pv = pros@;
        let ghost cv = cons@;
        let alt = Alternative { name: owned(name), description: owned(description), pros, cons };
        let ghost ag = alt;
        let d = with_alternative(d0, alt, now_rfc3339());
        assert(d.alternatives@.drop_last() =~= d0.alternatives@);
        assert(d.alternatives@.last() == ag);
        let s = self.store.save(path, &d);
        assert(self.store().saves(path@, d, s));
        let r = match s {
            Ok(_) => Ok(d),
            Err(e) => Err(e),
        };
        assert(alternative_added(d0, d, name@, description@, pv, cv));
        r
    }

    /// Adds a tag to a decision, saving it only when the tag is new.
    pub fn add_tag(&self, path: &str, decision_id: &str, tag: &str) -> (r: CellResult<DecisionRecord>)
        ensures
            r matches Ok(d) ==> string_views(d.tags@).contains(tag@),
            exists|a: CellResult<Option<DecisionRecord>>| #[trigger] self.store().loads_by_id(path@, decision_id@, a)
                && match a {
                    Ok(Some(d0)) => if string_views(d0.tags@).contains(tag@) {
                        r == Ok::<DecisionRecord, CellError>(d0)
                    } else {
                        exists|d: DecisionRecord, s: CellResult<()>| #[trigger] self.store().saves(path@, d, s)
                            && tag_added(d0, d, tag@) && saved_outcome(s, d, r)
                    },
                    _ => found_outcome(a, r),
                },
    {
        let d0 = self.require(path, decision_id);
        let ghost a = choose|a: CellResult<Option<DecisionRecord>>| #[trigger] self.store().loads_by_id(path@, decision_id@, a)
            && found_outcome(a, d0);
        let mut d = match d0 {
            Ok(d) => d,
            Err(e) => {
                return Err(e);
            },
        };
        let ghost dz = d;
        let added = add_unique(&mut d.tags, tag);
        proof {
            let after = string_views(d.tags@);
            if added {
                assert(after[after.len() - 1] == tag@);
            }
        }
        if added {
            d.updated_at = now_rfc3339();
            let s = self.store.save(path, &d);
            assert(self.store().saves(path@, d, s));
            assert(d.tags@.last()@ == string_views(d.tags@).last());
            assert(tag_added(dz, d, tag@));
            match s {
                Ok(_) => {},
                Err(e) => {
                    return Err(e);
                },
            }
        } else {
            assert(d == dz);
        }
        Ok(d)
    }

    /// Adds a related file to a decision, saving it only when the file is new.
    pub fn add_related_file(&self, path: &str, decision_id: &str, file: &str) -> (r: CellResult<DecisionRecord>)
        ensures
            r matches Ok(d) ==> string_views(d.related_files@).contains(file@),
            exists|a: CellResult<Option<DecisionRecord>>| #[trigger] self.store().loads_by_id(path@, decision_id@, a)
                && match a {
                    Ok(Some(d0)) => if string_views(d0.related_files@).contains(file@) {
                        r == Ok::<DecisionRecord, CellError>(d0)
                    } else {
                        exists|d: DecisionRecord, s: CellResult<()>| #[trigger] self.store().saves(path@, d, s)
                            && related_file_added(d0, d, file@) && saved_outcome(s, d, r)
                    },
                    _ => found_outcome(a, r),
                },
    {
        let d0 = self.require(path, decision_id);
        let ghost a = choose|a: CellResult<Option<DecisionRecord>>| #[trigger] self.store().loads_by_id(path@, decision_id@, a)
            && found_outcome(a, d0);
        let mut d = match d0 {
            Ok(d) => d,
            Err(e) => {
                return Err(e);
            },
        };
        let ghost dz = d;
        let added = add_unique(&mut d.related_files, file);
        proof {
            let after = string_views(d.related_files@);
            if added {
                assert(after[after.len() - 1] == file@);
            }
        }
        if added {
            d.updated_at = now_rfc3339();
            let s = self.store.save(path, &d);
            assert(self.store().saves(path@, d, s));
            assert(d.related_files@.last()@ == string_views(d.related_files@).last());
            assert(related_file_added(dz, d, file@));
            match s {
                Ok(_) => {},
                Err(e) => {
                    return Err(e);
                },
            }
        } else {
            assert(d == dz);
        }
        Ok(d)
    }

    /// Changes the status of a decision and saves it.
    pub fn update_status(&self, path: &str, decision_id: &str, status: DecisionStatus) -> (r: CellResult<DecisionRecord>)
        ensures
            r matches Ok(d) ==> d.status == status
                && ((status == DecisionStatus::Deprecated || status == DecisionStatus::Superseded) ==> d.revoked_at is Some),
            exists|a: CellResult<Option<DecisionRecord>>| #[trigger] self.store().loads_by_id(path@, decision_id@, a)
                && match a {
                    Ok(Some(d0)) => exists|d: DecisionRecord, s: CellResult<()>| #[trigger] self.store().saves(path@, d, s)
                        && status_changed(d0, d, status) && saved_outcome(s, d, r),
                    _ => found_outcome(a, r),
                },
    {
        let d0 = self.require(path, decision_id);
        let ghost a = choose|a: CellResult<Option<DecisionRecord>>| #[trigger] self.store().loads_by_id(path@, decision_id@, a)
            && found_outcome(a, d0);
        let d0 = match d0 {
            Ok(d) => d,
            Err(e) => {
                return Err(e);
            },
        };
        let d = with_status(d0, status, now_rfc3339());
        let s = self.store.save(path, &d);
        assert(self.store().saves(path@, d, s));
        assert(status_changed(d0, d, status));
        match s {
            Ok(_) => Ok(d),
            Err(e) => Err(e),
        }
    }

    /// The stored decisions of the category and status asked for, newest first.
    pub fn list_decisions(&self, path: &str, category: Option<DecisionCategory>, status: Option<DecisionStatus>)
        -> (r: CellResult<Vec<DecisionRecord>>)
        ensures
            r matches Ok(v) ==> newest_made_first(v@)
                && forall|i: int| 0 <= i < v@.len() ==> (category matches Some(c) ==> (#[trigger] v@[i]).category == c)
                    && (status matches Some(s) ==> v@[i].status == s),
            exists|a: CellResult<Vec<DecisionRecord>>| #[trigger] self.store().loads_all(path@, a) && match a {
                Ok(all) => r matches Ok(v) && v@.to_multiset() == selected(all@, category, status).to_multiset(),
                Err(e) => r == Err::<Vec<DecisionRecord>, CellError>(e),
            },
    {
        let a = self.store.load_all(path);
        assert(self.store().loads_all(path@, a));
        let all = match a {
            Ok(all) => all,
            Err(e) => {
                return Err(e);
            },
        };
        let ghost sel = selected(all@, category, status);
        let r = select_and_sort(all, category, status);
        proof {
            lemma_selected_match(all@, category, status);
            assert forall|i: int| 0 <= i < r@.len() implies (category matches Some(c) ==> (#[trigger] r@[i]).category == c)
                && (status matches Some(s) ==> r@[i].status == s) by {
                assert(r@.to_multiset().count(r@[i]) > 0);
                assert(sel.to_multiset().count(r@[i]) > 0);
                assert(sel.contains(r@[i]));
            }
        }
        Ok(r)
    }

    /// The stored decision with the identifier, if any.
    pub fn get_decision(&self, path: &str, id: &str) -> (r: CellResult<Option<DecisionRecord>>)
        ensures
            self.store().loads_by_id(path@, id@, r),
    {
        self.store.load_by_id(path, id)
    }

    /// The counts over the stored decisions.
    pub fn get_metrics(&self, path: &str) -> (r: CellResult<DecisionMetrics>)
        ensures
            self.store().gives_metrics(path@, r),
    {
        self.store.get_metrics(path)
    }
}

proof fn lemma_selected_match(ds: Seq<DecisionRecord>, category: Option<DecisionCategory>, status: Option<DecisionStatus>)
    ensures
        forall|i: int| 0 <= i < selected(ds, category, status).len() ==>
            (category matches Some(c) ==> (#[trigger] selected(ds, category, status)[i]).category == c)
            && (status matches Some(s) ==> selected(ds, category, status)[i].status == s),
    decreases ds.len(),
{
    if ds.len() > 0 {
        lemma_selected_match(ds.drop_last(), category, status);
    }
}

} // verus!
