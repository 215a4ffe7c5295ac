use vstd::prelude::*;
use vstd::string::*;
use crate::records::{
    EntityView, GetProposalFilters, ProposalRecord, RfpRecord, GetRfpFilters, ProposalSnapshotRecord, ProposalSnapshotView,
    RfpSnapshotRecord, RfpSnapshotView,
};
use crate::table::{
    has_row, keys_unique, latest, lemma_index_in_view, lemma_view_insert, row_index, rows_view, Row,
    Table,
};
use crate::text::{copy_opt_string, copy_strings, opt_str_view, strs_view};

verus! {

/// What `str::to_lowercase` makes of a text.
pub uninterp spec fn lower_of(s: Seq<char>) -> Seq<char>;

/// What `str::to_uppercase` makes of a text.
pub uninterp spec fn upper_of(s: Seq<char>) -> Seq<char>;

/// Relies on `str::to_lowercase`: the result depends on the characters alone.
#[verifier::external_body]
fn lowercase(s: &str) -> (r: String)
    ensures
        r@ == lower_of(s@),
{
    s.to_lowercase()
}

/// Relies on `str::to_uppercase`: the result depends on the characters alone.
#[verifier::external_body]
fn uppercase(s: &str) -> (r: String)
    ensures
        r@ == upper_of(s@),
{
    s.to_uppercase()
}

/// The order of a listing.
#[derive(Debug, Clone, Copy, PartialEq, Eq, Structural)]
pub enum ListOrder {
    IdAsc,
    IdDesc,
    TsAsc,
    TsDesc,
}

/// The order a lower-cased order name asks for; unknown names list by id, descending.
pub open spec fn order_of(lowered: Seq<char>) -> ListOrder {
    if lowered == "ts_asc"@ {
        ListOrder::TsAsc
    } else if lowered == "ts_desc"@ {
        ListOrder::TsDesc
    } else if lowered == "id_asc"@ {
        ListOrder::IdAsc
    } else {
        ListOrder::IdDesc
    }
}

/// The order named by an already lower-cased text.
pub fn order_from_lowercase(lowered: &str) -> (r: ListOrder)
    ensures
        r == order_of(lowered@),
{
    if crate::dispatch::text_eq(lowered, "ts_asc") {
        ListOrder::TsAsc
    } else if crate::dispatch::text_eq(lowered, "ts_desc") {
        ListOrder::TsDesc
    } else if crate::dispatch::text_eq(lowered, "id_asc") {
        ListOrder::IdAsc
    } else {
        ListOrder::IdDesc
    }
}

/// The order named by `order`, in any case.
pub fn parse_order(order: &str) -> (r: ListOrder)
    ensures
        r == order_of(lower_of(order@)),
{
    let lowered = lowercase(order);
    order_from_lowercase(lowered.as_str())
}

/// The timeline keyword of a proposal stage name given in upper case.
pub open spec fn proposal_stage_of(upper: Seq<char>) -> Option<Seq<char>> {
    if upper == "DRAFT"@ || upper == "REVIEW"@ || upper == "APPROVED"@ || upper == "REJECTED"@
        || upper == "CANCELLED"@ || upper == "PAYMENT"@ || upper == "FUNDED"@ {
        Some(upper)
    } else if upper == "CONDITIONAL"@ {
        Some("CONDITIONALLY"@)
    } else {
        None
    }
}

/// The timeline keyword of an RFP stage name given in upper case.
pub open spec fn rfp_stage_of(upper: Seq<char>) -> Option<Seq<char>> {
    if upper == "ACCEPTING_SUBMISSIONS"@ || upper == "EVALUATION"@ || upper
        == "PROPOSAL_SELECTED"@ || upper == "CANCELLED"@ {
        Some(upper)
    } else {
        None
    }
}

/// The keyword of an upper-cased proposal stage name; none for an unknown stage.
pub fn proposal_stage_from_uppercase(upper: &str) -> (r: Option<String>)
    ensures
        opt_str_view(r) == proposal_stage_of(upper@),
{
    if crate::dispatch::text_eq(upper, "DRAFT") || crate::dispatch::text_eq(upper, "REVIEW")
        || crate::dispatch::text_eq(upper, "APPROVED") || crate::dispatch::text_eq(upper, "REJECTED")
        || crate::dispatch::text_eq(upper, "CANCELLED") || crate::dispatch::text_eq(upper, "PAYMENT")
        || crate::dispatch::text_eq(upper, "FUNDED") {
        Some(String::from_str(upper))
    } else if crate::dispatch::text_eq(upper, "CONDITIONAL") {
        Some(String::from_str("CONDITIONALLY"))
    } else {
        None
    }
}

/// The keyword of an upper-cased RFP stage name; none for an unknown stage.
pub fn rfp_stage_from_uppercase(upper: &str) -> (r: Option<String>)
    ensures
        opt_str_view(r) == rfp_stage_of(upper@),
{
    if crate::dispatch::text_eq(upper, "ACCEPTING_SUBMISSIONS") || crate::dispatch::text_eq(
        upper,
        "EVALUATION",
    ) || crate::dispatch::text_eq(upper, "PROPOSAL_SELECTED") || crate::dispatch::text_eq(
        upper,
        "CANCELLED",
    ) {
        Some(String::from_str(upper))
    } else {
        None
    }
}

/// `needle` occurs in `hay`.
pub open spec fn contains_text(hay: Seq<char>, needle: Seq<char>) -> bool {
    exists|i: int|
        0 <= i && i + needle.len() <= hay.len() && #[trigger] hay.subrange(i, i + needle.len())
            == needle
}

/// Whether `needle` occurs in `hay`.
pub fn text_contains(hay: &str, needle: &str) -> (r: bool)
    ensures
        r == contains_text(hay@, needle@),
{
    let n = hay.unicode_len();
    let m = needle.unicode_len();
    if m > n {
        assert forall|i: int| 0 <= i && i + needle@.len() <= hay@.len() implies #[trigger] hay@.subrange(
            i,
            i + needle@.len(),
        ) != needle@ by {}
        return false;
    }
    let mut i: usize = 0;
    while i <= n - m
        invariant
            n == hay@.len(),
            m == needle@.len(),
            m <= n,
            i <= n - m + 1,
            forall|a: int| 0 <= a < i ==> #[trigger] hay@.subrange(a, a + m) != needle@,
        decreases n - m + 1 - i,
    {
        let mut j: usize = 0;
        let mut same = true;
        while j < m
            invariant
                n == hay@.len(),
                m == needle@.len(),
                i + m <= n,
                j <= m,
                same == (forall|b: int| 0 <= b < j ==> hay@[i + b] == needle@[b]),
            decreases m - j,
        {
            if hay.get_char(i + j) != needle.get_char(j) {
                same = false;
            }
            j = j + 1;
        }
        if same {
            assert(hay@.subrange(i as int, i + m) =~= needle@);
            return true;
        }
        assert(hay@.subrange(i as int, i + m) != needle@) by {
            let b = choose|b: int| 0 <= b < m && hay@[i + b] != needle@[b];
            assert(hay@.subrange(i as int, i + m)[b] == hay@[i + b]);
        }
        i = i + 1;
    }
    false
}

/// The filters of a listing, with the stage already resolved to its timeline keyword.
pub struct ListFilter {
    pub author_id: Option<String>,
    pub block_timestamp: Option<i64>,
    pub stage: Option<String>,
    pub category: Option<String>,
    pub labels: Option<Vec<String>>,
}

/// A listing filter seen as values.
pub struct FilterView {
    pub author_id: Option<Seq<char>>,
    pub block_timestamp: Option<i64>,
    pub stage: Option<Seq<char>>,
    pub category: Option<Seq<char>>,
    pub labels: Option<Seq<Seq<char>>>,
}

impl View for ListFilter {
    type V = FilterView;

    open spec fn view(&self) -> FilterView {
        FilterView {
            author_id: opt_str_view(self.author_id),
            block_timestamp: self.block_timestamp,
            stage: opt_str_view(self.stage),
            category: opt_str_view(self.category),
            labels: match self.labels {
                Some(v) => Some(strs_view(v)),
                None => None,
            },
        }
    }
}

/// Some label of `a` is a label of `b`.
pub open spec fn labels_overlap(a: Seq<Seq<char>>, b: Seq<Seq<char>>) -> bool {
    exists|i: int, j: int| 0 <= i < a.len() && 0 <= j < b.len() && #[trigger] a[i] == #[trigger] b[j]
}

/// A snapshot with these fields, of an entity by `author`, passes the filter:
/// same author, newer than the given time, a timeline naming the stage, the
/// same category, and a label in common, each where the filter asks for it.
pub open spec fn filter_accepts(
    f: FilterView,
    author: Seq<char>,
    ts: i64,
    timeline: Option<Seq<char>>,
    category: Option<Seq<char>>,
    labels: Seq<Seq<char>>,
) -> bool {
    &&& (f.author_id matches Some(a) ==> a == author)
    &&& (f.block_timestamp matches Some(t) ==> ts > t)
    &&& (f.stage matches Some(k) ==> timeline matches Some(tl) && contains_text(tl, k))
    &&& (f.category matches Some(c) ==> category == Some(c))
    &&& (f.labels matches Some(l) ==> labels_overlap(labels, l))
}

fn str_eq(a: &String, b: &String) -> (r: bool)
    ensures
        r == (a@ == b@),
{
    *a == *b
}

fn overlap(a: &Vec<String>, b: &Vec<String>) -> (r: bool)
    ensures
        r == labels_overlap(strs_view(*a), strs_view(*b)),
{
    let mut i: usize = 0;
    while i < a.len()
        invariant
            i <= a@.len(),
            forall|x: int, y: int| 0 <= x < i && 0 <= y < b@.len() ==> a@[x]@ != b@[y]@,
        decreases a@.len() - i,
    {
        let mut j: usize = 0;
        while j < b.len()
            invariant
                i < a@.len(),
                j <= b@.len(),
                forall|x: int, y: int| 0 <= x < i && 0 <= y < b@.len() ==> a@[x]@ != b@[y]@,
                forall|y: int| 0 <= y < j ==> a@[i as int]@ != b@[y]@,
            decreases b@.len() - j,
        {
            if str_eq(&a[i], &b[j]) {
                assert(strs_view(*a)[i as int] == strs_view(*b)[j as int]);
                return true;
            }
            j = j + 1;
        }
        i = i + 1;
    }
    assert forall|x: int, y: int|
        0 <= x < strs_view(*a).len() && 0 <= y < strs_view(*b).len() implies #[trigger] strs_view(
        *a,
    )[x] != #[trigger] strs_view(*b)[y] by {
        assert(a@[x]@ != b@[y]@);
    }
    false
}

impl ListFilter {
    /// Whether a snapshot with these fields, of an entity by `author`, passes.
    pub fn accepts(
        &self,
        author: &String,
        ts: i64,
        timeline: &Option<String>,
        category: &Option<String>,
        labels: &Vec<String>,
    ) -> (r: bool)
        ensures
            r == filter_accepts(
                self@,
                author@,
                ts,
                opt_str_view(*timeline),
                opt_str_view(*category),
                strs_view(*labels),
            ),
    {
        if let Some(a) = &self.author_id {
            if !str_eq(a, author) {
                return false;
            }
        }
        if let Some(t) = self.block_timestamp {
            if !(ts > t) {
                return false;
            }
        }
        if let Some(k) = &self.stage {
            match timeline {
                Some(tl) => {
                    if !text_contains(tl.as_str(), k.as_str()) {
                        return false;
                    }
                },
                None => {
                    return false;
                },
            }
        }
        if let Some(c) = &self.category {
            match category {
                Some(c2) => {
                    if !str_eq(c, c2) {
                        return false;
                    }
                },
                None => {
                    return false;
                },
            }
        }
        if let Some(l) = &self.labels {
            if !overlap(labels, l) {
                return false;
            }
        }
        true
    }
}

/// The filter view of a proposal listing's filters.
pub open spec fn proposal_filter_of(f: Option<GetProposalFilters>) -> FilterView {
    match f {
        Some(g) => FilterView {
            author_id: opt_str_view(g.author_id),
            block_timestamp: g.block_timestamp,
            stage: match g.stage {
                Some(st) => proposal_stage_of(upper_of(st@)),
                None => None,
            },
            category: opt_str_view(g.category),
            labels: match g.labels {
                Some(v) => Some(strs_view(v)),
                None => None,
            },
        },
        None => FilterView {
            author_id: None,
            block_timestamp: None,
            stage: None,
            category: None,
            labels: None,
        },
    }
}

/// The filter view of an RFP listing's filters.
pub open spec fn rfp_filter_of(f: Option<GetRfpFilters>) -> FilterView {
    match f {
        Some(g) => FilterView {
            author_id: opt_str_view(g.author_id),
            block_timestamp: g.block_timestamp,
            stage: match g.stage {
                Some(st) => rfp_stage_of(upper_of(st@)),
                None => None,
            },
            category: opt_str_view(g.category),
            labels: match g.labels {
                Some(v) => Some(strs_view(v)),
                None => None,
            },
        },
        None => FilterView {
            author_id: None,
            block_timestamp: None,
            stage: None,
            category: None,
            labels: None,
        },
    }
}

fn copy_opt_strings(o: &Option<Vec<String>>) -> (r: Option<Vec<String>>)
    ensures
        match (r, *o) {
            (Some(a), Some(b)) => strs_view(a) == strs_view(b),
            (None, None) => true,
            _ => false,
        },
{
    match o {
        Some(v) => Some(copy_strings(v)),
        None => None,
    }
}

impl ListFilter {
    /// The filter of a proposal listing.
    pub fn for_proposals(filters: &Option<GetProposalFilters>) -> (r: ListFilter)
        ensures
            r@ == proposal_filter_of(*filters),
    {
        match filters {
            Some(g) => ListFilter {
                author_id: copy_opt_string(&g.author_id),
                block_timestamp: g.block_timestamp,
                stage: match &g.stage {
                    Some(st) => {
                        let upper = uppercase(st.as_str());
                        proposal_stage_from_uppercase(upper.as_str())
                    },
                    None => None,
                },
                category: copy_opt_string(&g.category),
                labels: copy_opt_strings(&g.labels),
            },
            None => ListFilter {
                author_id: None,
                block_timestamp: None,
                stage: None,
                category: None,
                labels: None,
            },
        }
    }

    /// The filter of an RFP listing.
    pub fn for_rfps(filters: &Option<GetRfpFilters>) -> (r: ListFilter)
        ensures
            r@ == rfp_filter_of(*filters),
    {
        match filters {
            Some(g) => ListFilter {
                author_id: copy_opt_string(&g.author_id),
                block_timestamp: g.block_timestamp,
                stage: match &g.stage {
                    Some(st) => {
                        let upper = uppercase(st.as_str());
                        rfp_stage_from_uppercase(upper.as_str())
                    },
                    None => None,
                },
                category: copy_opt_string(&g.category),
                labels: copy_opt_strings(&g.labels),
            },
            None => ListFilter {
                author_id: None,
                block_timestamp: None,
                stage: None,
                category: None,
                labels: None,
            },
        }
    }
}

/// Snapshot rows that a listing can filter.
pub trait Listable: Row {
    /// A row with view `v`, of an entity by `author`, passes filter `f`.
    spec fn listed_by(v: Self::V, f: FilterView, author: Seq<char>) -> bool;

    fn passes(&self, f: &ListFilter, author: &String) -> (r: bool)
        ensures
            r == Self::listed_by(self.row_view(), f@, author@),
    ;
}

impl Listable for ProposalSnapshotRecord {
    open spec fn listed_by(v: ProposalSnapshotView, f: FilterView, author: Seq<char>) -> bool {
        filter_accepts(f, author, v.ts, v.timeline, v.category, v.labels)
    }

    fn passes(&self, f: &ListFilter, author: &String) -> (r: bool) {
        f.accepts(author, self.ts, &self.timeline, &self.category, &self.labels)
    }
}

impl Listable for RfpSnapshotRecord {
    open spec fn listed_by(v: RfpSnapshotView, f: FilterView, author: Seq<char>) -> bool {
        filter_accepts(f, author, v.ts, v.timeline, v.category, v.labels)
    }

    fn passes(&self, f: &ListFilter, author: &String) -> (r: bool) {
        f.accepts(author, self.ts, &self.timeline, &self.category, &self.labels)
    }
}

/// The sort key of a row keyed `(id, ts)`: by id, or by time with id breaking ties.
pub open spec fn order_key(o: ListOrder, k: (int, int)) -> (int, int) {
    match o {
        ListOrder::IdAsc => (k.0, 0),
        ListOrder::IdDesc => (-k.0, 0),
        ListOrder::TsAsc => (k.1, k.0),
        ListOrder::TsDesc => (-k.1, -k.0),
    }
}

pub open spec fn key_lt(a: (int, int), b: (int, int)) -> bool {
    a.0 < b.0 || (a.0 == b.0 && a.1 < b.1)
}

/// Rows in strictly ascending sort key.
pub open spec fn sorted_by<R: Row>(o: ListOrder, rows: Seq<R>) -> bool {
    forall|i: int, j: int|
        0 <= i < j < rows.len() ==> key_lt(
            order_key(o, #[trigger] rows[i].row_key()),
            order_key(o, #[trigger] rows[j].row_key()),
        )
}

fn precedes(o: ListOrder, a: (i32, i64), b: (i32, i64)) -> (r: bool)
    ensures
        r == key_lt(
            order_key(o, (a.0 as int, a.1 as int)),
            order_key(o, (b.0 as int, b.1 as int)),
        ),
{
    let (a0, a1, b0, b1): (i128, i128, i128, i128) = match o {
        ListOrder::IdAsc => (a.0 as i128, 0, b.0 as i128, 0),
        ListOrder::IdDesc => (-(a.0 as i128), 0, -(b.0 as i128), 0),
        ListOrder::TsAsc => (a.1 as i128, a.0 as i128, b.1 as i128, b.0 as i128),
        ListOrder::TsDesc => (-(a.1 as i128), -(a.0 as i128), -(b.1 as i128), -(b.0 as i128)),
    };
    a0 < b0 || (a0 == b0 && a1 < b1)
}

/// Insert `x` where the sort key puts it; its sort key differs from every other row's.
fn insert_sorted<R: Row>(out: &mut Vec<R>, x: R, o: ListOrder)
    requires
        sorted_by(o, old(out)@),
        forall|j: int|
            0 <= j < old(out)@.len() ==> order_key(o, #[trigger] old(out)@[j].row_key()) != order_key(
                o,
                x.row_key(),
            ),
    ensures
        sorted_by(o, final(out)@),
        exists|p: int| 0 <= p <= old(out)@.len() && final(out)@ == old(out)@.insert(p, x),
{
    let kx = x.key();
    let mut p: usize = 0;
    loop
        invariant
            x.row_key() == (kx.0 as int, kx.1 as int),
            p <= out@.len(),
            out@ == old(out)@,
            sorted_by(o, old(out)@),
            forall|j: int|
                0 <= j < old(out)@.len() ==> order_key(o, #[trigger] old(out)@[j].row_key())
                    != order_key(o, x.row_key()),
            forall|j: int| 0 <= j < p ==> key_lt(
                order_key(o, #[trigger] out@[j].row_key()),
                order_key(o, x.row_key()),
            ),
        ensures
            p <= out@.len(),
            out@ == old(out)@,
            forall|j: int| 0 <= j < p ==> key_lt(
                order_key(o, #[trigger] out@[j].row_key()),
                order_key(o, x.row_key()),
            ),
            p < out@.len() ==> key_lt(order_key(o, x.row_key()), order_key(o, out@[p as int].row_key())),
        decreases out@.len() - p,
    {
        if p >= out.len() {
            break;
        }
        let kp = out[p].key();
        proof {
            assert(x.row_key() == (kx.0 as int, kx.1 as int));
            assert(out@[p as int].row_key() == (kp.0 as int, kp.1 as int));
            assert(order_key(o, out@[p as int].row_key()) != order_key(o, x.row_key()));
        }
        if precedes(o, kx, kp) {
            break;
        }
        p = p + 1;
    }
    let ghost before = out@;
    out.insert(p, x);
    proof {
        assert forall|i: int, j: int| 0 <= i < j < out@.len() implies key_lt(
            order_key(o, #[trigger] out@[i].row_key()),
            order_key(o, #[trigger] out@[j].row_key()),
        ) by {
            if j < p {
                assert(out@[i] == before[i] && out@[j] == before[j]);
            } else if j == p {
                assert(out@[i] == before[i]);
            } else if i == p {
                assert(out@[j] == before[j - 1]);
                if j - 1 > p {
                    assert(key_lt(
                        order_key(o, before[p as int].row_key()),
                        order_key(o, before[j - 1].row_key()),
                    ));
                }
            } else if i < p {
                assert(out@[i] == before[i] && out@[j] == before[j - 1]);
            } else {
                assert(out@[i] == before[i - 1] && out@[j] == before[j - 1]);
            }
        }
    }
}

/// The start of a page of `len` rows.
pub open spec fn page_start(offset: int, len: int) -> int {
    if offset < len {
        offset
    } else {
        len
    }
}

/// The end of a page of `len` rows.
pub open spec fn page_end(offset: int, limit: int, len: int) -> int {
    if offset + limit < len {
        offset + limit
    } else {
        len
    }
}

/// The page of at most `limit` rows that starts after `offset` rows.
pub fn paginate<T>(rows: Vec<T>, offset: i64, limit: i64) -> (r: Vec<T>)
    requires
        offset >= 0,
        limit >= 0,
    ensures
        r@ == rows@.subrange(
            page_start(offset as int, rows@.len() as int),
            page_end(offset as int, limit as int, rows@.len() as int),
        ),
{
    let len = rows.len();
    let lo: usize = if (offset as i128) < (len as i128) {
        offset as usize
    } else {
        len
    };
    let hi: usize = if (offset as i128) + (limit as i128) < (len as i128) {
        ((offset as i128) + (limit as i128)) as usize
    } else {
        len
    };
    let ghost orig = rows@;
    let mut rows = rows;
    let mut tail = rows.split_off(lo);
    tail.truncate(hi - lo);
    assert(tail@ =~= orig.subrange(lo as int, hi as int));
    tail
}

/// Entity rows: keyed `(id, 0)`, with an author.
pub trait EntityRow: Row<V = EntityView> {
    fn author(&self) -> (r: &String)
        ensures
            r@ == self.row_view().author_id,
    ;
}

impl EntityRow for ProposalRecord {
    fn author(&self) -> (r: &String) {
        &self.author_id
    }
}

impl EntityRow for RfpRecord {
    fn author(&self) -> (r: &String) {
        &self.author_id
    }
}

/// If entity `e`, with id `id`, has a latest snapshot that passes `f`, `rows` holds it.
pub open spec fn covered<S: Listable>(
    rows: Seq<S>,
    snapshots: Map<(int, int), S::V>,
    f: FilterView,
    e: EntityView,
    id: int,
) -> bool {
    match latest(snapshots, id) {
        Some(v) => S::listed_by(v, f, e.author_id) ==> exists|j: int|
            0 <= j < rows.len() && rows[j].row_view() == v,
        None => true,
    }
}

/// `v` is the latest snapshot of an entity of `entities`, and passes `f`.
pub open spec fn is_listed<S: Listable>(
    entities: Map<(int, int), EntityView>,
    snapshots: Map<(int, int), S::V>,
    f: FilterView,
    v: S::V,
) -> bool {
    exists|k: (int, int)| #[trigger]
        entities.contains_key(k) && latest(snapshots, k.0) == Some(v) && S::listed_by(
            v,
            f,
            entities[k].author_id,
        )
}

/// `rows` holds, in sort order, exactly the latest snapshots that pass `f`.
pub open spec fn lists<S: Listable>(
    rows: Seq<S>,
    entities: Map<(int, int), EntityView>,
    snapshots: Map<(int, int), S::V>,
    f: FilterView,
    o: ListOrder,
) -> bool {
    &&& sorted_by(o, rows)
    &&& forall|v: S::V|
        (exists|j: int| 0 <= j < rows.len() && #[trigger] rows[j].row_view() == v) <==> is_listed::<S>(
            entities,
            snapshots,
            f,
            v,
        )
}

/// The latest snapshot of every entity whose snapshot passes `f`, in order `o`.
pub fn list_latest<E: EntityRow, S: Listable>(
    entities: &Table<E>,
    snapshots: &Table<S>,
    f: &ListFilter,
    o: ListOrder,
) -> (r: Vec<S>)
    requires
        entities.wf(),
        snapshots.wf(),
        forall|k: (int, int)| #[trigger] entities.view().contains_key(k) ==> k.1 == 0,
    ensures
        lists(r@, entities.view(), snapshots.view(), f@, o),
{
    let ents = entities.all();
    let ghost ev = entities.view();
    let ghost sv = snapshots.view();
    proof {
        assert forall|k: int| 0 <= k < ents@.len() implies #[trigger] ents@[k].row_key().1 == 0 by {
            lemma_index_in_view(ents@, k);
        }
    }
    let mut out: Vec<S> = Vec::new();
    let mut i: usize = 0;
    while i < ents.len()
        invariant
            ev == entities.view(),
            sv == snapshots.view(),
            snapshots.wf(),
            keys_unique(ents@),
            rows_view(ents@) == ev,
            forall|k: int| 0 <= k < ents@.len() ==> #[trigger] ents@[k].row_key().1 == 0,
            i <= ents@.len(),
            sorted_by(o, out@),
            forall|j: int|
                0 <= j < out@.len() ==> exists|k: int|
                    0 <= k < i && #[trigger] out@[j].row_key().0 == ents@[k].row_key().0 && latest(
                        sv,
                        ents@[k].row_key().0,
                    ) == Some(out@[j].row_view()) && S::listed_by(
                        out@[j].row_view(),
                        f@,
                        ents@[k].row_view().author_id,
                    ),
            forall|k: int| 0 <= k < i ==> #[trigger] covered(out@, sv, f@, ents@[k].row_view(), ents@[k].row_key().0),
        decreases ents@.len() - i,
    {
        let e = &ents[i];
        let id = e.key().0;
        match snapshots.latest(id, None) {
            Some(snap) => {
                if snap.passes(f, e.author()) {
                    let ghost before = out@;
                    let ghost sk = snap.row_key();
                    let ghost sview = snap.row_view();
                    proof {
                        assert(sk.0 == id as int);
                        assert(id as int == ents@[i as int].row_key().0);
                        assert forall|j: int| 0 <= j < before.len() implies order_key(
                            o,
                            #[trigger] before[j].row_key(),
                        ) != order_key(o, sk) by {
                            let k = choose|k: int|
                                0 <= k < i && #[trigger] before[j].row_key().0 == ents@[k].row_key().0
                                    && latest(sv, ents@[k].row_key().0) == Some(before[j].row_view())
                                    && S::listed_by(
                                    before[j].row_view(),
                                    f@,
                                    ents@[k].row_view().author_id,
                                );
                            assert(ents@[k].row_key() != ents@[i as int].row_key());
                            assert(ents@[k].row_key().1 == 0 && ents@[i as int].row_key().1 == 0);
                        }
                    }
                    insert_sorted(&mut out, snap, o);
                    proof {
                        let p = choose|p: int| 0 <= p <= before.len() && out@ == before.insert(p, snap);
                        assert forall|j: int| 0 <= j < out@.len() implies exists|k: int|
                            0 <= k < i + 1 && #[trigger] out@[j].row_key().0 == ents@[k].row_key().0
                                && latest(sv, ents@[k].row_key().0) == Some(out@[j].row_view())
                                && S::listed_by(
                                out@[j].row_view(),
                                f@,
                                ents@[k].row_view().author_id,
                            ) by {
                            if j == p {
                                assert(out@[j] == snap);
                            } else if j < p {
                                assert(out@[j] == before[j]);
                            } else {
                                assert(out@[j] == before[j - 1]);
                            }
                        }
                        assert forall|k: int| 0 <= k < i + 1 implies #[trigger] covered(
                            out@,
                            sv,
                            f@,
                            ents@[k].row_view(),
                            ents@[k].row_key().0,
                        ) by {
                            if k == i {
                                assert(out@[p] == snap);
                            } else {
                                assert(covered(before, sv, f@, ents@[k].row_view(), ents@[k].row_key().0));
                                if let Some(v) = latest(sv, ents@[k].row_key().0) {
                                    if S::listed_by(v, f@, ents@[k].row_view().author_id) {
                                        let j = choose|j: int|
                                            0 <= j < before.len() && before[j].row_view() == v;
                                        if j < p {
                                            assert(out@[j] == before[j]);
                                        } else {
                                            assert(out@[j + 1] == before[j]);
                                        }
                                    }
                                }
                            }
                        }
                    }
                }
            },
            None => {},
        }
        proof {
            assert forall|j: int| 0 <= j < out@.len() implies exists|k: int|
                0 <= k < i + 1 && #[trigger] out@[j].row_key().0 == ents@[k].row_key().0 && latest(
                    sv,
                    ents@[k].row_key().0,
                ) == Some(out@[j].row_view()) && S::listed_by(
                    out@[j].row_view(),
                    f@,
                    ents@[k].row_view().author_id,
                ) by {
                if exists|k: int|
                    0 <= k < i && #[trigger] out@[j].row_key().0 == ents@[k].row_key().0 && latest(
                        sv,
                        ents@[k].row_key().0,
                    ) == Some(out@[j].row_view()) && S::listed_by(
                        out@[j].row_view(),
                        f@,
                        ents@[k].row_view().author_id,
                    ) {
                    let k = choose|k: int|
                        0 <= k < i && #[trigger] out@[j].row_key().0 == ents@[k].row_key().0 && latest(
                            sv,
                            ents@[k].row_key().0,
                        ) == Some(out@[j].row_view()) && S::listed_by(
                            out@[j].row_view(),
                            f@,
                            ents@[k].row_view().author_id,
                        );
                    assert(0 <= k < i + 1);
                }
            }
        }
        i = i + 1;
    }
    proof {
        assert forall|v: S::V|
            (exists|j: int| 0 <= j < out@.len() && #[trigger] out@[j].row_view() == v) <==> is_listed::<S>(
                ev,
                sv,
                f@,
                v,
            ) by {
            if exists|j: int| 0 <= j < out@.len() && #[trigger] out@[j].row_view() == v {
                let j = choose|j: int| 0 <= j < out@.len() && #[trigger] out@[j].row_view() == v;
                let k = choose|k: int|
                    0 <= k < i && #[trigger] out@[j].row_key().0 == ents@[k].row_key().0 && latest(
                        sv,
                        ents@[k].row_key().0,
                    ) == Some(out@[j].row_view()) && S::listed_by(
                        out@[j].row_view(),
                        f@,
                        ents@[k].row_view().author_id,
                    );
                lemma_index_in_view(ents@, k);
                assert(ev.contains_key(ents@[k].row_key()));
            }
            if is_listed::<S>(ev, sv, f@, v) {
                let key = choose|key: (int, int)| #[trigger]
                    ev.contains_key(key) && latest(sv, key.0) == Some(v) && S::listed_by(
                        v,
                        f@,
                        ev[key].author_id,
                    );
                let k = row_index(ents@, key);
                lemma_index_in_view(ents@, k);
                assert(ents@[k].row_key() == key);
                assert(ents@[k].row_view() == ev[key]);
                assert(covered(out@, sv, f@, ents@[k].row_view(), ents@[k].row_key().0));
            }
        }
    }
    out
}

/// Rows dated strictly newest first.
pub open spec fn newest_first<R: Row>(rows: Seq<R>) -> bool {
    forall|i: int, j: int|
        0 <= i < j < rows.len() ==> #[trigger] rows[i].row_key().1 > #[trigger] rows[j].row_key().1
}

/// The rows of one entity, newest first.
pub fn sort_newest_first<R: Row>(rows: Vec<R>, id: i32) -> (r: Vec<R>)
    requires
        keys_unique(rows@),
        forall|j: int| 0 <= j < rows@.len() ==> (#[trigger] rows@[j].row_key()).0 == id as int,
    ensures
        newest_first(r@),
        keys_unique(r@),
        rows_view(r@) == rows_view(rows@),
{
    let mut out: Vec<R> = Vec::new();
    let mut i: usize = 0;
    assert(rows_view(out@) =~= rows_view(rows@.subrange(0, 0)));
    while i < rows.len()
        invariant
            i <= rows@.len(),
            keys_unique(rows@),
            forall|j: int| 0 <= j < rows@.len() ==> (#[trigger] rows@[j].row_key()).0 == id as int,
            keys_unique(out@),
            sorted_by(ListOrder::TsDesc, out@),
            forall|j: int| 0 <= j < out@.len() ==> (#[trigger] out@[j].row_key()).0 == id as int,
            forall|k: (int, int)| has_row(out@, k) ==> has_row(rows@.subrange(0, i as int), k),
            rows_view(out@) == rows_view(rows@.subrange(0, i as int)),
        decreases rows@.len() - i,
    {
        let x = rows[i].copy_row();
        let ghost prefix = rows@.subrange(0, i as int);
        let ghost before = out@;
        proof {
            assert(rows@.subrange(0, i + 1) =~= prefix.push(rows@[i as int]));
            assert(keys_unique(prefix));
            assert(!has_row(prefix, x.row_key())) by {
                if has_row(prefix, x.row_key()) {
                    let j = row_index(prefix, x.row_key());
                    assert(rows@[j].row_key() == x.row_key());
                }
            }
            assert(!has_row(before, x.row_key()));
            crate::table::lemma_view_push(prefix, rows@[i as int]);
            assert forall|j: int| 0 <= j < before.len() implies order_key(
                ListOrder::TsDesc,
                #[trigger] before[j].row_key(),
            ) != order_key(ListOrder::TsDesc, x.row_key()) by {
                assert(before[j].row_key() != x.row_key());
            }
        }
        insert_sorted(&mut out, x, ListOrder::TsDesc);
        proof {
            let p = choose|p: int| 0 <= p <= before.len() && out@ == before.insert(p, x);
            lemma_view_insert(before, p, x);
            assert forall|j: int| 0 <= j < out@.len() implies (#[trigger] out@[j].row_key()).0 == id as int by {
                if j < p {
                    assert(out@[j] == before[j]);
                } else if j > p {
                    assert(out@[j] == before[j - 1]);
                }
            }
            assert forall|k: (int, int)| has_row(out@, k) implies has_row(
                rows@.subrange(0, i + 1),
                k,
            ) by {
                let j = row_index(out@, k);
                if j == p {
                    assert(rows@.subrange(0, i + 1)[i as int].row_key() == k);
                } else {
                    let j0 = if j < p { j } else { j - 1 };
                    assert(out@[j] == before[j0]);
                    assert(has_row(before, k));
                    let l = row_index(prefix, k);
                    assert(rows@.subrange(0, i + 1)[l].row_key() == k);
                }
            }
        }
        i = i + 1;
    }
    assert(rows@.subrange(0, rows@.len() as int) =~= rows@);
    assert forall|a: int, b: int| 0 <= a < b < out@.len() implies #[trigger] out@[a].row_key().1
        > #[trigger] out@[b].row_key().1 by {
        assert(key_lt(
            order_key(ListOrder::TsDesc, out@[a].row_key()),
            order_key(ListOrder::TsDesc, out@[b].row_key()),
        ));
    }
    out
}

} // verus!
