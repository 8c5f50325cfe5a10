//! A model of the relational store: each table maps its natural key to a row,
//! and a batch is applied as `INSERT OR REPLACE`, row by row in order.
use vstd::prelude::*;

use crate::importers::{
    akas_batch, basics_batch, episode_kept, episodes_batch, ratings_batch, title_ids, Feed,
};
use crate::rows::{AkaRecord, EpisodesRow, RatingsRow, TitleRecord};

verus! {

/// The four tables.
pub struct Store {
    pub titles: Map<u32, TitleRecord>,
    pub akas: Map<(u32, i32), AkaRecord>,
    pub episodes: Map<u32, EpisodesRow>,
    pub ratings: Map<u32, RatingsRow>,
}

/// One feed's cached file: its header row and its records, in batches.
pub struct FeedInput {
    pub headers: Seq<Seq<char>>,
    pub batches: Seq<Seq<Seq<Seq<char>>>>,
}

/// The feeds that a sweep imports; `None` for a feed that is already imported.
pub struct SweepInput {
    pub basics: Option<FeedInput>,
    pub akas: Option<FeedInput>,
    pub episodes: Option<FeedInput>,
    pub ratings: Option<FeedInput>,
}

/// `m` after writing `rows` in order, each replacing the row under its key.
pub open spec fn upsert<K, V>(m: Map<K, V>, rows: Seq<V>, key: spec_fn(V) -> K) -> Map<K, V>
    decreases rows.len(),
{
    if rows.len() == 0 {
        m
    } else {
        upsert(m, rows.drop_last(), key).insert(key(rows.last()), rows.last())
    }
}

/// `m` after writing each batch of rows in turn.
pub open spec fn upsert_batches<K, V>(m: Map<K, V>, batches: Seq<Seq<V>>, key: spec_fn(V) -> K) -> Map<
    K,
    V,
>
    decreases batches.len(),
{
    if batches.len() == 0 {
        m
    } else {
        upsert(upsert_batches(m, batches.drop_last(), key), batches.last(), key)
    }
}

/// All rows of a sequence of batches, in order.
pub open spec fn concat_batches<V>(batches: Seq<Seq<V>>) -> Seq<V>
    decreases batches.len(),
{
    if batches.len() == 0 {
        Seq::empty()
    } else {
        concat_batches(batches.drop_last()) + batches.last()
    }
}

pub open spec fn title_key(t: TitleRecord) -> u32 {
    t.id
}

pub open spec fn aka_key(a: AkaRecord) -> (u32, i32) {
    (a.title_id, a.ordering)
}

pub open spec fn episode_key(e: EpisodesRow) -> u32 {
    e.id.0
}

pub open spec fn rating_key(r: RatingsRow) -> u32 {
    r.id.0
}

pub open spec fn basics_rows(input: FeedInput) -> Seq<Seq<TitleRecord>> {
    input.batches.map_values(|b: Seq<Seq<Seq<char>>>| basics_batch(input.headers, b))
}

pub open spec fn akas_rows(known: Set<u32>, input: FeedInput) -> Seq<Seq<AkaRecord>> {
    input.batches.map_values(|b: Seq<Seq<Seq<char>>>| akas_batch(known, input.headers, b))
}

pub open spec fn episodes_rows(known: Set<u32>, input: FeedInput) -> Seq<Seq<EpisodesRow>> {
    input.batches.map_values(|b: Seq<Seq<Seq<char>>>| episodes_batch(known, input.headers, b))
}

pub open spec fn ratings_rows(known: Set<u32>, input: FeedInput) -> Seq<Seq<RatingsRow>> {
    input.batches.map_values(|b: Seq<Seq<Seq<char>>>| ratings_batch(known, input.headers, b))
}

/// The store after importing one feed's file with the known-id set `known`.
pub open spec fn import_feed(s: Store, f: Feed, known: Set<u32>, input: FeedInput) -> Store {
    match f {
        Feed::Basics => Store {
            titles: upsert_batches(s.titles, basics_rows(input), |t: TitleRecord| title_key(t)),
            ..s
        },
        Feed::Akas => Store {
            akas: upsert_batches(s.akas, akas_rows(known, input), |a: AkaRecord| aka_key(a)),
            ..s
        },
        Feed::Episodes => Store {
            episodes: upsert_batches(
                s.episodes,
                episodes_rows(known, input),
                |e: EpisodesRow| episode_key(e),
            ),
            ..s
        },
        Feed::Ratings => Store {
            ratings: upsert_batches(
                s.ratings,
                ratings_rows(known, input),
                |r: RatingsRow| rating_key(r),
            ),
            ..s
        },
    }
}

/// The known-id set once the anchor has run: the ids of every basics row
/// imported in this sweep.
pub open spec fn sweep_known(sw: SweepInput) -> Set<u32> {
    match sw.basics {
        Some(input) => title_ids(concat_batches(basics_rows(input))),
        None => Set::empty(),
    }
}

pub open spec fn import_opt(s: Store, f: Feed, known: Set<u32>, input: Option<FeedInput>) -> Store {
    match input {
        Some(i) => import_feed(s, f, known, i),
        None => s,
    }
}

/// The store after a sweep: the anchor first, then each dependent feed,
/// filtered by the anchor's known-id set.
pub open spec fn sweep(s: Store, sw: SweepInput) -> Store {
    let k = sweep_known(sw);
    let s1 = import_opt(s, Feed::Basics, Set::empty(), sw.basics);
    let s2 = import_opt(s1, Feed::Akas, k, sw.akas);
    let s3 = import_opt(s2, Feed::Episodes, k, sw.episodes);
    import_opt(s3, Feed::Ratings, k, sw.ratings)
}

/// Every alternate title, episode (and its series) and rating refers to a title.
pub open spec fn references_ok(s: Store) -> bool {
    &&& forall|k| #[trigger] s.akas.contains_key(k) ==> s.titles.contains_key(s.akas[k].title_id)
    &&& forall|k| #[trigger] s.episodes.contains_key(k) ==> s.titles.contains_key(
        s.episodes[k].id.0,
    ) && s.titles.contains_key(s.episodes[k].parent_id.0)
    &&& forall|k| #[trigger] s.ratings.contains_key(k) ==> s.titles.contains_key(
        s.ratings[k].id.0,
    )
}

proof fn lemma_upsert_union<K, V>(m: Map<K, V>, rows: Seq<V>, key: spec_fn(V) -> K)
    ensures
        upsert(m, rows, key) == m.union_prefer_right(upsert(Map::empty(), rows, key)),
    decreases rows.len(),
{
    if rows.len() > 0 {
        lemma_upsert_union(m, rows.drop_last(), key);
        assert(upsert(m, rows, key) =~= m.union_prefer_right(upsert(Map::empty(), rows, key)));
    } else {
        assert(m.union_prefer_right(Map::empty()) =~= m);
    }
}

proof fn lemma_upsert_concat<K, V>(m: Map<K, V>, a: Seq<V>, b: Seq<V>, key: spec_fn(V) -> K)
    ensures
        upsert(upsert(m, a, key), b, key) == upsert(m, a + b, key),
    decreases b.len(),
{
    if b.len() == 0 {
        assert(a + b =~= a);
    } else {
        lemma_upsert_concat(m, a, b.drop_last(), key);
        assert((a + b).drop_last() =~= a + b.drop_last());
        assert((a + b).last() == b.last());
    }
}

proof fn lemma_upsert_batches<K, V>(m: Map<K, V>, batches: Seq<Seq<V>>, key: spec_fn(V) -> K)
    ensures
        upsert_batches(m, batches, key) == upsert(m, concat_batches(batches), key),
    decreases batches.len(),
{
    if batches.len() > 0 {
        lemma_upsert_batches(m, batches.drop_last(), key);
        lemma_upsert_concat(m, concat_batches(batches.drop_last()), batches.last(), key);
    }
}

proof fn lemma_upsert_idempotent<K, V>(m: Map<K, V>, rows: Seq<V>, key: spec_fn(V) -> K)
    ensures
        upsert(upsert(m, rows, key), rows, key) == upsert(m, rows, key),
{
    let l = upsert(Map::empty(), rows, key);
    lemma_upsert_union(m, rows, key);
    lemma_upsert_union(upsert(m, rows, key), rows, key);
    assert(m.union_prefer_right(l).union_prefer_right(l) =~= m.union_prefer_right(l));
}

proof fn lemma_upsert_batches_idempotent<K, V>(
    m: Map<K, V>,
    batches: Seq<Seq<V>>,
    key: spec_fn(V) -> K,
)
    ensures
        upsert_batches(upsert_batches(m, batches, key), batches, key) == upsert_batches(
            m,
            batches,
            key,
        ),
{
    lemma_upsert_batches(m, batches, key);
    lemma_upsert_batches(upsert_batches(m, batches, key), batches, key);
    lemma_upsert_idempotent(m, concat_batches(batches), key);
}

/// Importing the same cached file twice, with the same known-id set, leaves
/// the store as importing it once.
pub proof fn lemma_import_idempotent(s: Store, f: Feed, known: Set<u32>, input: FeedInput)
    ensures
        import_feed(import_feed(s, f, known, input), f, known, input) == import_feed(
            s,
            f,
            known,
            input,
        ),
{
    match f {
        Feed::Basics => lemma_upsert_batches_idempotent(
            s.titles,
            basics_rows(input),
            |t: TitleRecord| title_key(t),
        ),
        Feed::Akas => lemma_upsert_batches_idempotent(
            s.akas,
            akas_rows(known, input),
            |a: AkaRecord| aka_key(a),
        ),
        Feed::Episodes => lemma_upsert_batches_idempotent(
            s.episodes,
            episodes_rows(known, input),
            |e: EpisodesRow| episode_key(e),
        ),
        Feed::Ratings => lemma_upsert_batches_idempotent(
            s.ratings,
            ratings_rows(known, input),
            |r: RatingsRow| rating_key(r),
        ),
    }
}

proof fn lemma_upsert_keeps<K, V>(m: Map<K, V>, rows: Seq<V>, key: spec_fn(V) -> K, p: spec_fn(V) -> bool)
    requires
        forall|k| #[trigger] m.contains_key(k) ==> p(m[k]),
        forall|i: int| 0 <= i < rows.len() ==> p(#[trigger] rows[i]),
    ensures
        forall|k| #[trigger] upsert(m, rows, key).contains_key(k) ==> p(upsert(m, rows, key)[k]),
        forall|k| #[trigger] m.contains_key(k) ==> upsert(m, rows, key).contains_key(k),
    decreases rows.len(),
{
    if rows.len() > 0 {
        let d = rows.drop_last();
        assert forall|i: int| 0 <= i < d.len() implies p(#[trigger] d[i]) by {
            assert(d[i] == rows[i]);
        }
        lemma_upsert_keeps(m, d, key, p);
        assert(p(rows[rows.len() - 1]));
        let prev = upsert(m, d, key);
        let next = upsert(m, rows, key);
        assert(next == prev.insert(key(rows.last()), rows.last()));
        assert forall|k| #[trigger] next.contains_key(k) implies p(next[k]) by {
            if k != key(rows.last()) {
                assert(prev.contains_key(k));
            }
        }
    }
}

proof fn lemma_upsert_batches_keeps<K, V>(
    m: Map<K, V>,
    batches: Seq<Seq<V>>,
    key: spec_fn(V) -> K,
    p: spec_fn(V) -> bool,
)
    requires
        forall|k| #[trigger] m.contains_key(k) ==> p(m[k]),
        forall|j: int, i: int| 0 <= j < batches.len() && 0 <= i < batches[j].len() ==> p(
            #[trigger] batches[j][i],
        ),
    ensures
        forall|k| #[trigger] upsert_batches(m, batches, key).contains_key(k) ==> p(
            upsert_batches(m, batches, key)[k],
        ),
        forall|k| #[trigger] m.contains_key(k) ==> upsert_batches(m, batches, key).contains_key(k),
    decreases batches.len(),
{
    if batches.len() > 0 {
        let d = batches.drop_last();
        assert forall|j: int, i: int| 0 <= j < d.len() && 0 <= i < d[j].len() implies p(
            #[trigger] d[j][i],
        ) by {
            assert(d[j] == batches[j]);
        }
        lemma_upsert_batches_keeps(m, d, key, p);
        let last = batches.last();
        assert forall|i: int| 0 <= i < last.len() implies p(#[trigger] last[i]) by {
            assert(batches[batches.len() - 1][i] == last[i]);
        }
        lemma_upsert_keeps(upsert_batches(m, d, key), last, key, p);
    }
}

/// The ids of written title rows are keys of the table afterwards.
proof fn lemma_upsert_title_ids(m: Map<u32, TitleRecord>, rows: Seq<TitleRecord>)
    ensures
        forall|id| #[trigger] title_ids(rows).contains(id) ==> upsert(
            m,
            rows,
            |t: TitleRecord| title_key(t),
        ).contains_key(id),
    decreases rows.len(),
{
    if rows.len() > 0 {
        let key = |t: TitleRecord| title_key(t);
        lemma_upsert_title_ids(m, rows.drop_last());
        let prev = upsert(m, rows.drop_last(), key);
        assert(upsert(m, rows, key) == prev.insert(rows.last().id, rows.last()));
        assert forall|id| #[trigger] title_ids(rows).contains(id) implies upsert(
            m,
            rows,
            key,
        ).contains_key(id) by {
            if id != rows.last().id {
                assert(title_ids(rows.drop_last()).contains(id));
            }
        }
    }
}

proof fn lemma_akas_batch_known(known: Set<u32>, h: Seq<Seq<char>>, recs: Seq<Seq<Seq<char>>>)
    ensures
        forall|i: int| 0 <= i < akas_batch(known, h, recs).len() ==> known.contains(
            #[trigger] akas_batch(known, h, recs)[i].title_id,
        ),
    decreases recs.len(),
{
    if recs.len() > 0 {
        lemma_akas_batch_known(known, h, recs.drop_last());
        let b = akas_batch(known, h, recs);
        let p = akas_batch(known, h, recs.drop_last());
        assert forall|i: int| 0 <= i < b.len() implies known.contains(b[i].title_id) by {
            if i < p.len() {
                assert(b[i] == p[i]);
            }
        }
    }
}

proof fn lemma_episodes_batch_known(
    known: Set<u32>,
    h: Seq<Seq<char>>,
    recs: Seq<Seq<Seq<char>>>,
)
    ensures
        forall|i: int| 0 <= i < episodes_batch(known, h, recs).len() ==> episode_kept(
            known,
            #[trigger] episodes_batch(known, h, recs)[i],
        ),
    decreases recs.len(),
{
    if recs.len() > 0 {
        lemma_episodes_batch_known(known, h, recs.drop_last());
        let b = episodes_batch(known, h, recs);
        let p = episodes_batch(known, h, recs.drop_last());
        assert forall|i: int| 0 <= i < b.len() implies episode_kept(known, b[i]) by {
            if i < p.len() {
                assert(b[i] == p[i]);
            }
        }
    }
}

proof fn lemma_ratings_batch_known(known: Set<u32>, h: Seq<Seq<char>>, recs: Seq<Seq<Seq<char>>>)
    ensures
        forall|i: int| 0 <= i < ratings_batch(known, h, recs).len() ==> known.contains(
            #[trigger] ratings_batch(known, h, recs)[i].id.0,
        ),
    decreases recs.len(),
{
    if recs.len() > 0 {
        lemma_ratings_batch_known(known, h, recs.drop_last());
        let b = ratings_batch(known, h, recs);
        let p = ratings_batch(known, h, recs.drop_last());
        assert forall|i: int| 0 <= i < b.len() implies known.contains(b[i].id.0) by {
            if i < p.len() {
                assert(b[i] == p[i]);
            }
        }
    }
}

/// After a sweep, every alternate title, episode (with its series) and rating
/// in the store refers to a title in the store, given that this held before
/// (as it does of the empty store).
pub proof fn lemma_sweep_keeps_references(s: Store, sw: SweepInput)
    requires
        references_ok(s),
    ensures
        references_ok(sweep(s, sw)),
{
    let k = sweep_known(sw);
    let s1 = import_opt(s, Feed::Basics, Set::empty(), sw.basics);
    let t = s1.titles;
    // the anchor only adds titles, and adds every id of the known-id set
    match sw.basics {
        Some(input) => {
            let tkey = |x: TitleRecord| title_key(x);
            lemma_upsert_batches(s.titles, basics_rows(input), tkey);
            lemma_upsert_title_ids(s.titles, concat_batches(basics_rows(input)));
            lemma_upsert_keeps(
                s.titles,
                concat_batches(basics_rows(input)),
                tkey,
                |x: TitleRecord| true,
            );
        },
        None => {},
    }
    assert(forall|id| #[trigger] k.contains(id) ==> t.contains_key(id));
    assert(forall|id| #[trigger] s.titles.contains_key(id) ==> t.contains_key(id));
    let pa = |a: AkaRecord| t.contains_key(a.title_id);
    let pe = |e: EpisodesRow| t.contains_key(e.id.0) && t.contains_key(e.parent_id.0);
    let pr = |r: RatingsRow| t.contains_key(r.id.0);
    assert(forall|x| #[trigger] s1.akas.contains_key(x) ==> pa(s1.akas[x]));
    assert(forall|x| #[trigger] s1.episodes.contains_key(x) ==> pe(s1.episodes[x]));
    assert(forall|x| #[trigger] s1.ratings.contains_key(x) ==> pr(s1.ratings[x]));
    let s2 = import_opt(s1, Feed::Akas, k, sw.akas);
    match sw.akas {
        Some(input) => {
            let rows = akas_rows(k, input);
            assert forall|j: int, i: int| 0 <= j < rows.len() && 0 <= i < rows[j].len() implies pa(
                #[trigger] rows[j][i],
            ) by {
                lemma_akas_batch_known(k, input.headers, input.batches[j]);
            }
            lemma_upsert_batches_keeps(s1.akas, rows, |a: AkaRecord| aka_key(a), pa);
        },
        None => {},
    }
    let s3 = import_opt(s2, Feed::Episodes, k, sw.episodes);
    match sw.episodes {
        Some(input) => {
            let rows = episodes_rows(k, input);
            assert forall|j: int, i: int| 0 <= j < rows.len() && 0 <= i < rows[j].len() implies pe(
                #[trigger] rows[j][i],
            ) by {
                lemma_episodes_batch_known(k, input.headers, input.batches[j]);
            }
            lemma_upsert_batches_keeps(s2.episodes, rows, |e: EpisodesRow| episode_key(e), pe);
        },
        None => {},
    }
    match sw.ratings {
        Some(input) => {
            let rows = ratings_rows(k, input);
            assert forall|j: int, i: int| 0 <= j < rows.len() && 0 <= i < rows[j].len() implies pr(
                #[trigger] rows[j][i],
            ) by {
                lemma_ratings_batch_known(k, input.headers, input.batches[j]);
            }
            lemma_upsert_batches_keeps(s3.ratings, rows, |r: RatingsRow| rating_key(r), pr);
        },
        None => {},
    }
}

} // verus!
