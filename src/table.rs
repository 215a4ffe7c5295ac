use vstd::prelude::*;

verus! {

/// A row of a table keyed by `(entity id, timestamp)`.
///
/// Entity rows, which have no timestamp, use `0` as the second key part.
pub trait Row: Sized {
    type V;

    spec fn row_view(&self) -> Self::V;

    spec fn row_key(&self) -> (int, int);

    fn key(&self) -> (r: (i32, i64))
        ensures
            r.0 as int == self.row_key().0,
            r.1 as int == self.row_key().1,
    ;

    fn copy_row(&self) -> (r: Self)
        ensures
            r.row_view() == self.row_view(),
            r.row_key() == self.row_key(),
    ;
}

pub open spec fn has_row<R: Row>(rows: Seq<R>, k: (int, int)) -> bool {
    exists|i: int| 0 <= i < rows.len() && #[trigger] rows[i].row_key() == k
}

pub open spec fn row_index<R: Row>(rows: Seq<R>, k: (int, int)) -> int {
    choose|i: int| 0 <= i < rows.len() && #[trigger] rows[i].row_key() == k
}

/// The view of an optional row.
pub open spec fn row_view_of<R: Row>(r: Option<R>) -> Option<R::V> {
    match r {
        Some(x) => Some(x.row_view()),
        None => None,
    }
}

/// The contents of a row sequence as a map from key to row view.
pub open spec fn rows_view<R: Row>(rows: Seq<R>) -> Map<(int, int), R::V> {
    Map::new(|k: (int, int)| has_row(rows, k), |k: (int, int)| rows[row_index(rows, k)].row_view())
}

pub open spec fn keys_unique<R: Row>(rows: Seq<R>) -> bool {
    forall|i: int, j: int|
        0 <= i < rows.len() && 0 <= j < rows.len() && i != j ==> #[trigger] rows[i].row_key()
            != #[trigger] rows[j].row_key()
}

/// Keys whose timestamp part is strictly below `t`.
pub open spec fn keys_before(t: int) -> Set<(int, int)> {
    Set::new(|k: (int, int)| k.1 < t)
}

/// `ts` is the greatest timestamp that `m` holds for entity `id`.
pub open spec fn is_latest_ts<V>(m: Map<(int, int), V>, id: int, ts: int) -> bool {
    m.contains_key((id, ts)) && forall|t2: int| #[trigger] m.contains_key((id, t2)) ==> t2 <= ts
}

/// The row of entity `id` with the greatest timestamp, if `m` holds any row of it.
pub open spec fn latest<V>(m: Map<(int, int), V>, id: int) -> Option<V> {
    if exists|ts: int| is_latest_ts(m, id, ts) {
        Some(m[(id, choose|ts: int| is_latest_ts(m, id, ts))])
    } else {
        None
    }
}

/// The part of `m` dated strictly before `t`.
pub open spec fn before<V>(m: Map<(int, int), V>, t: int) -> Map<(int, int), V> {
    m.restrict(keys_before(t))
}

pub proof fn lemma_index_in_view<R: Row>(rows: Seq<R>, i: int)
    requires
        keys_unique(rows),
        0 <= i < rows.len(),
    ensures
        rows_view(rows).contains_key(rows[i].row_key()),
        rows_view(rows)[rows[i].row_key()] == rows[i].row_view(),
        row_index(rows, rows[i].row_key()) == i,
{
    let k = rows[i].row_key();
    assert(has_row(rows, k));
    let j = row_index(rows, k);
    assert(rows[j].row_key() == k);
}

proof fn lemma_view_update<R: Row>(rows: Seq<R>, i: int, r: R)
    requires
        keys_unique(rows),
        0 <= i < rows.len(),
        rows[i].row_key() == r.row_key(),
    ensures
        keys_unique(rows.update(i, r)),
        rows_view(rows.update(i, r)) =~= rows_view(rows).insert(r.row_key(), r.row_view()),
{
    let new_rows = rows.update(i, r);
    assert(keys_unique(new_rows)) by {
        assert forall|a: int, b: int|
            0 <= a < new_rows.len() && 0 <= b < new_rows.len() && a != b implies #[trigger] new_rows[a].row_key()
            != #[trigger] new_rows[b].row_key() by {
            assert(rows[a].row_key() != rows[b].row_key());
        }
    }
    let m = rows_view(rows).insert(r.row_key(), r.row_view());
    assert forall|k: (int, int)| #[trigger] rows_view(new_rows).contains_key(k) <==> m.contains_key(k) by {
        if has_row(rows, k) {
            let j = row_index(rows, k);
            assert(new_rows[j].row_key() == k);
        }
        if has_row(new_rows, k) {
            let j = row_index(new_rows, k);
            assert(rows[j].row_key() == k || j == i);
        }
    }
    assert forall|k: (int, int)| #[trigger] rows_view(new_rows).contains_key(k) implies rows_view(
        new_rows,
    )[k] == m[k] by {
        let j = row_index(new_rows, k);
        lemma_index_in_view(new_rows, j);
        if j != i {
            lemma_index_in_view(rows, j);
        }
    }
}

pub proof fn lemma_view_push<R: Row>(rows: Seq<R>, r: R)
    requires
        keys_unique(rows),
        !has_row(rows, r.row_key()),
    ensures
        keys_unique(rows.push(r)),
        rows_view(rows.push(r)) =~= rows_view(rows).insert(r.row_key(), r.row_view()),
{
    let new_rows = rows.push(r);
    assert(keys_unique(new_rows)) by {
        assert forall|a: int, b: int|
            0 <= a < new_rows.len() && 0 <= b < new_rows.len() && a != b implies #[trigger] new_rows[a].row_key()
            != #[trigger] new_rows[b].row_key() by {
            if a < rows.len() && b < rows.len() {
                assert(rows[a].row_key() != rows[b].row_key());
            } else if a < rows.len() {
                assert(rows[a].row_key() == new_rows[a].row_key());
            } else {
                assert(rows[b].row_key() == new_rows[b].row_key());
            }
        }
    }
    let m = rows_view(rows).insert(r.row_key(), r.row_view());
    assert forall|k: (int, int)| #[trigger] rows_view(new_rows).contains_key(k) <==> m.contains_key(k) by {
        if has_row(rows, k) {
            let j = row_index(rows, k);
            assert(new_rows[j].row_key() == k);
        }
        if k == r.row_key() {
            assert(new_rows[rows.len() as int].row_key() == k);
        }
        if has_row(new_rows, k) {
            let j = row_index(new_rows, k);
            if j < rows.len() {
                assert(rows[j].row_key() == k);
            }
        }
    }
    assert forall|k: (int, int)| #[trigger] rows_view(new_rows).contains_key(k) implies rows_view(
        new_rows,
    )[k] == m[k] by {
        let j = row_index(new_rows, k);
        lemma_index_in_view(new_rows, j);
        if j < rows.len() {
            lemma_index_in_view(rows, j);
        }
    }
}

proof fn lemma_same_rows<R: Row>(a: Seq<R>, b: Seq<R>)
    requires
        keys_unique(a),
        a.len() == b.len(),
        forall|j: int| 0 <= j < a.len() ==> #[trigger] b[j].row_key() == a[j].row_key() && b[j].row_view()
            == a[j].row_view(),
    ensures
        keys_unique(b),
        rows_view(b) == rows_view(a),
{
    assert forall|x: int, y: int|
        0 <= x < b.len() && 0 <= y < b.len() && x != y implies #[trigger] b[x].row_key()
        != #[trigger] b[y].row_key() by {
        assert(a[x].row_key() != a[y].row_key());
    }
    assert forall|k: (int, int)| #[trigger] rows_view(b).contains_key(k) <==> rows_view(a).contains_key(k) by {
        if has_row(a, k) {
            let j = row_index(a, k);
            assert(b[j].row_key() == k);
        }
        if has_row(b, k) {
            let j = row_index(b, k);
            assert(a[j].row_key() == k);
        }
    }
    assert forall|k: (int, int)| #[trigger] rows_view(b).contains_key(k) implies rows_view(b)[k]
        == rows_view(a)[k] by {
        let j = row_index(b, k);
        lemma_index_in_view(b, j);
        lemma_index_in_view(a, j);
    }
    assert(rows_view(b) =~= rows_view(a));
}

pub proof fn lemma_view_insert<R: Row>(rows: Seq<R>, p: int, r: R)
    requires
        keys_unique(rows),
        !has_row(rows, r.row_key()),
        0 <= p <= rows.len(),
    ensures
        keys_unique(rows.insert(p, r)),
        rows_view(rows.insert(p, r)) =~= rows_view(rows).insert(r.row_key(), r.row_view()),
{
    let n = rows.insert(p, r);
    assert forall|i: int| 0 <= i < n.len() implies #[trigger] n[i] == (if i < p {
        rows[i]
    } else if i == p {
        r
    } else {
        rows[i - 1]
    }) by {}
    assert forall|a: int, b: int|
        0 <= a < n.len() && 0 <= b < n.len() && a != b implies #[trigger] n[a].row_key()
        != #[trigger] n[b].row_key() by {
        if a != p && b != p {
            let a0 = if a < p { a } else { a - 1 };
            let b0 = if b < p { b } else { b - 1 };
            assert(rows[a0].row_key() != rows[b0].row_key());
        } else if a == p {
            let b0 = if b < p { b } else { b - 1 };
            assert(rows[b0].row_key() == n[b].row_key());
        } else {
            let a0 = if a < p { a } else { a - 1 };
            assert(rows[a0].row_key() == n[a].row_key());
        }
    }
    let m = rows_view(rows).insert(r.row_key(), r.row_view());
    assert forall|k: (int, int)| #[trigger] rows_view(n).contains_key(k) <==> m.contains_key(k) by {
        if has_row(rows, k) {
            let j = row_index(rows, k);
            if j < p {
                assert(n[j].row_key() == k);
            } else {
                assert(n[j + 1].row_key() == k);
            }
        }
        if k == r.row_key() {
            assert(n[p].row_key() == k);
        }
        if has_row(n, k) {
            let j = row_index(n, k);
            if j < p {
                assert(rows[j].row_key() == k);
            } else if j > p {
                assert(rows[j - 1].row_key() == k);
            }
        }
    }
    assert forall|k: (int, int)| #[trigger] rows_view(n).contains_key(k) implies rows_view(n)[k] == m[k] by {
        let j = row_index(n, k);
        lemma_index_in_view(n, j);
        if j < p {
            lemma_index_in_view(rows, j);
        } else if j > p {
            lemma_index_in_view(rows, j - 1);
        }
    }
}

/// A set of rows with unique keys: the storage behind each table of the store.
pub struct Table<R: Row> {
    rows: Vec<R>,
}

impl<R: Row> Table<R> {
    pub closed spec fn view(&self) -> Map<(int, int), R::V> {
        rows_view(self.rows@)
    }

    pub closed spec fn wf(&self) -> bool {
        keys_unique(self.rows@)
    }

    pub fn new() -> (t: Self)
        ensures
            t.wf(),
            t.view() == Map::<(int, int), R::V>::empty(),
    {
        let t = Table { rows: Vec::new() };
        assert(t.view() =~= Map::<(int, int), R::V>::empty());
        t
    }

    fn position(&self, id: i32, ts: i64) -> (r: Option<usize>)
        requires
            self.wf(),
        ensures
            r matches Some(i) ==> i < self.rows@.len() && self.rows@[i as int].row_key() == (
                id as int,
                ts as int,
            ),
            r is None ==> !has_row(self.rows@, (id as int, ts as int)),
    {
        let mut i: usize = 0;
        while i < self.rows.len()
            invariant
                i <= self.rows@.len(),
                forall|j: int| 0 <= j < i ==> #[trigger] self.rows@[j].row_key() != (id as int, ts as int),
            decreases self.rows@.len() - i,
        {
            let k = self.rows[i].key();
            if k.0 == id && k.1 == ts {
                return Some(i);
            }
            i = i + 1;
        }
        None
    }

    /// Insert `r`, replacing the row with the same key if there is one.
    pub fn upsert(&mut self, r: R)
        requires
            old(self).wf(),
        ensures
            final(self).wf(),
            final(self).view() == old(self).view().insert(r.row_key(), r.row_view()),
    {
        let k = r.key();
        match self.position(k.0, k.1) {
            Some(i) => {
                proof {
                    lemma_view_update(self.rows@, i as int, r);
                }
                self.rows.set(i, r);
            },
            None => {
                proof {
                    lemma_view_push(self.rows@, r);
                }
                self.rows.push(r);
            },
        }
    }

    /// A copy of the row of entity `id` with the greatest timestamp, counting
    /// only rows dated strictly before `bound` when a bound is given.
    pub fn latest(&self, id: i32, bound: Option<i64>) -> (r: Option<R>)
        requires
            self.wf(),
        ensures
            bound is None ==> row_view_of(r) == latest(self.view(), id as int),
            bound matches Some(t) ==> row_view_of(r) == latest(
                before(self.view(), t as int),
                id as int,
            ),
            r matches Some(x) ==> x.row_key().0 == id as int,
    {
        let ghost m = match bound {
            Some(t) => before(self.view(), t as int),
            None => self.view(),
        };
        let ghost in_scope = |k: (int, int)|
            k.0 == id as int && (bound matches Some(t) ==> k.1 < t as int);
        assert forall|k: (int, int)| #[trigger] m.contains_key(k) <==> (has_row(self.rows@, k) && (
        bound matches Some(t) ==> k.1 < t as int)) by {}
        let mut best: Option<usize> = None;
        let mut i: usize = 0;
        while i < self.rows.len()
            invariant
                self.wf(),
                i <= self.rows@.len(),
                m == (match bound {
                    Some(t) => before(self.view(), t as int),
                    None => self.view(),
                }),
                in_scope == (|k: (int, int)|
                    k.0 == id as int && (bound matches Some(t) ==> k.1 < t as int)),
                best matches Some(b) ==> b < i && in_scope(self.rows@[b as int].row_key()),
                best matches Some(b) ==> forall|j: int|
                    0 <= j < i && in_scope(#[trigger] self.rows@[j].row_key()) ==> self.rows@[j].row_key().1
                        <= self.rows@[b as int].row_key().1,
                best is None ==> forall|j: int|
                    0 <= j < i ==> !in_scope(#[trigger] self.rows@[j].row_key()),
            decreases self.rows@.len() - i,
        {
            let k = self.rows[i].key();
            let fits = k.0 == id && match bound {
                Some(t) => k.1 < t,
                None => true,
            };
            if fits {
                match best {
                    Some(b) => {
                        let kb = self.rows[b].key();
                        if kb.1 < k.1 {
                            best = Some(i);
                        }
                    },
                    None => {
                        best = Some(i);
                    },
                }
            }
            i = i + 1;
        }
        match best {
            Some(b) => {
                let ghost kb = self.rows@[b as int].row_key();
                proof {
                    lemma_index_in_view(self.rows@, b as int);
                    assert(m.contains_key(kb));
                    assert(kb.0 == id as int);
                    assert forall|t2: int| #[trigger] m.contains_key((id as int, t2)) implies t2
                        <= kb.1 by {
                        let j = row_index(self.rows@, (id as int, t2));
                        assert(in_scope(self.rows@[j].row_key()));
                    }
                    assert(is_latest_ts(m, id as int, kb.1));
                    let c = choose|ts: int| is_latest_ts(m, id as int, ts);
                    assert(is_latest_ts(m, id as int, c));
                    assert(m.contains_key((id as int, c)));
                    assert(c <= kb.1 && kb.1 <= c);
                    assert((id as int, kb.1) == kb);
                }
                Some(self.rows[b].copy_row())
            },
            None => {
                proof {
                    assert forall|ts: int| !is_latest_ts(m, id as int, ts) by {
                        if m.contains_key((id as int, ts)) {
                            let j = row_index(self.rows@, (id as int, ts));
                            assert(in_scope(self.rows@[j].row_key()));
                        }
                    }
                }
                None
            },
        }
    }

    /// Copies of the rows whose entity part is `id` (when `keep` holds) or is not.
    fn select(&self, id: i32, keep: bool) -> (r: Vec<R>)
        requires
            self.wf(),
        ensures
            keys_unique(r@),
            rows_view(r@) == self.view().restrict(entity_filter(id as int, keep)),
    {
        let mut out: Vec<R> = Vec::new();
        let mut i: usize = 0;
        assert(rows_view(out@) =~= rows_view(self.rows@.subrange(0, 0)).restrict(
            entity_filter(id as int, keep),
        ));
        while i < self.rows.len()
            invariant
                self.wf(),
                i <= self.rows@.len(),
                keys_unique(out@),
                forall|k: (int, int)| has_row(out@, k) ==> has_row(self.rows@.subrange(0, i as int), k),
                rows_view(out@) == rows_view(self.rows@.subrange(0, i as int)).restrict(
                    entity_filter(id as int, keep),
                ),
            decreases self.rows@.len() - i,
        {
            let ghost prefix = self.rows@.subrange(0, i as int);
            let ghost x = self.rows@[i as int];
            proof {
                assert(self.rows@.subrange(0, i + 1) =~= prefix.push(x));
                assert(keys_unique(prefix));
                assert(!has_row(prefix, x.row_key())) by {
                    if has_row(prefix, x.row_key()) {
                        let j = row_index(prefix, x.row_key());
                        assert(self.rows@[j].row_key() == x.row_key());
                    }
                }
                lemma_view_push(prefix, x);
            }
            let k = self.rows[i].key();
            if (k.0 == id) == keep {
                let c = self.rows[i].copy_row();
                proof {
                    assert(!has_row(out@, x.row_key()));
                    lemma_view_push(out@, c);
                    assert(rows_view(out@.push(c)) =~= rows_view(prefix.push(x)).restrict(
                        entity_filter(id as int, keep),
                    ));
                    assert forall|kk: (int, int)| has_row(out@.push(c), kk) implies has_row(
                        prefix.push(x),
                        kk,
                    ) by {
                        let j = row_index(out@.push(c), kk);
                        if j == out@.len() {
                            assert(prefix.push(x)[prefix.len() as int].row_key() == kk);
                        } else {
                            assert(out@.push(c)[j] == out@[j]);
                            assert(out@[j].row_key() == kk);
                            assert(has_row(out@, kk));
                            assert(has_row(prefix, kk));
                            let l = row_index(prefix, kk);
                            assert(prefix.push(x)[l].row_key() == kk);
                        }
                    }
                }
                out.push(c);
            } else {
                proof {
                    assert(rows_view(out@) =~= rows_view(prefix.push(x)).restrict(
                        entity_filter(id as int, keep),
                    ));
                    assert forall|kk: (int, int)| has_row(out@, kk) implies has_row(
                        prefix.push(x),
                        kk,
                    ) by {
                        let l = row_index(prefix, kk);
                        assert(prefix.push(x)[l].row_key() == kk);
                    }
                }
            }
            i = i + 1;
        }
        assert(self.rows@.subrange(0, self.rows@.len() as int) =~= self.rows@);
        out
    }

    /// Each entry of the view is the view of a row with that key.
    pub proof fn lemma_entries(&self)
        requires
            self.wf(),
        ensures
            forall|k: (int, int)| #[trigger] self.view().contains_key(k) ==> exists|r: R| r.row_key()
                == k && r.row_view() == self.view()[k],
    {
        assert forall|k: (int, int)| #[trigger] self.view().contains_key(k) implies exists|r: R|
            r.row_key() == k && r.row_view() == self.view()[k] by {
            let i = row_index(self.rows@, k);
            lemma_index_in_view(self.rows@, i);
            let r = self.rows@[i];
            assert(r.row_key() == k && r.row_view() == self.view()[k]);
        }
    }

    /// Copies of every row.
    pub fn all(&self) -> (r: Vec<R>)
        requires
            self.wf(),
        ensures
            keys_unique(r@),
            rows_view(r@) == self.view(),
    {
        let mut out: Vec<R> = Vec::new();
        let mut i: usize = 0;
        while i < self.rows.len()
            invariant
                i <= self.rows@.len(),
                out@.len() == i,
                forall|j: int| 0 <= j < i ==> #[trigger] out@[j].row_key() == self.rows@[j].row_key()
                    && out@[j].row_view() == self.rows@[j].row_view(),
            decreases self.rows@.len() - i,
        {
            out.push(self.rows[i].copy_row());
            i = i + 1;
        }
        proof {
            lemma_same_rows(self.rows@, out@);
        }
        out
    }

    /// Copies of every row of entity `id`.
    pub fn rows_of(&self, id: i32) -> (r: Vec<R>)
        requires
            self.wf(),
        ensures
            keys_unique(r@),
            rows_view(r@) == self.view().restrict(entity_filter(id as int, true)),
    {
        self.select(id, true)
    }

    /// Drop every row of entity `id`.
    pub fn remove_entity(&mut self, id: i32)
        requires
            old(self).wf(),
        ensures
            final(self).wf(),
            final(self).view() == old(self).view().restrict(entity_filter(id as int, false)),
    {
        self.rows = self.select(id, false);
    }

    /// Drop every row.
    pub fn clear(&mut self)
        ensures
            final(self).wf(),
            final(self).view() == Map::<(int, int), R::V>::empty(),
    {
        self.rows = Vec::new();
        assert(self.view() =~= Map::<(int, int), R::V>::empty());
    }
}

/// The keys of entity `id` (when `keep` holds) or of every other entity.
pub open spec fn entity_filter(id: int, keep: bool) -> Set<(int, int)> {
    Set::new(|k: (int, int)| (k.0 == id) == keep)
}

} // verus!
