//! The four feeds: their descriptors, how a batch size is chosen, and how a
//! batch of TSV records becomes the rows to upsert.
use vstd::prelude::*;

use crate::known_ids::KnownIds;
use crate::rows::{
    aka_record_of, episode_row_of, field, flag_field, id_field, nullable_i32_field,
    nullable_text_field, rating_row_of, title_record_of, AkaRecord, AkasRow, BasicsRow,
    EpisodesRow, RatingsRow, TitleRecord,
};
use crate::kind::TitleKind;
use crate::text::{parse_count, parse_i32, parse_tenths, str_eq};

verus! {

/// Whether a feed is the anchor, or waits for the anchor before importing.
#[derive(Clone, Copy, PartialEq, Eq, Debug, Structural)]
pub enum ImporterScheduling {
    IsBasics,
    WaitForBasics,
}

/// The backend's largest number of bound parameters in one statement.
pub const MAX_BIND_VALUES: usize = 32766;

/// The largest number of rows in one batch.
pub const MAX_BATCH_SIZE: usize = 10000;

pub open spec fn batch_size_for(bind_count: nat) -> nat {
    let by_binds = MAX_BIND_VALUES as nat / bind_count;
    if by_binds < MAX_BATCH_SIZE as nat {
        by_binds
    } else {
        MAX_BATCH_SIZE as nat
    }
}

/// The rows per batch for a feed that writes `bind_count` columns per row.
pub fn batch_size(bind_count: usize) -> (r: usize)
    requires
        bind_count > 0,
    ensures
        r == batch_size_for(bind_count as nat),
        r * bind_count <= MAX_BIND_VALUES,
        r <= MAX_BATCH_SIZE,
        bind_count <= MAX_BIND_VALUES ==> r >= 1,
{
    let by_binds = MAX_BIND_VALUES / bind_count;
    proof {
        assert(by_binds * bind_count <= MAX_BIND_VALUES) by (nonlinear_arith)
            requires by_binds == MAX_BIND_VALUES / bind_count, bind_count > 0;
        assert(bind_count <= MAX_BIND_VALUES ==> by_binds >= 1) by (nonlinear_arith)
            requires by_binds == MAX_BIND_VALUES / bind_count, bind_count > 0;
    }
    if by_binds < MAX_BATCH_SIZE {
        by_binds
    } else {
        proof {
            assert(MAX_BATCH_SIZE * bind_count <= by_binds * bind_count) by (nonlinear_arith)
                requires MAX_BATCH_SIZE <= by_binds;
        }
        MAX_BATCH_SIZE
    }
}

/// The ids of a sequence of title rows.
pub open spec fn title_ids(rs: Seq<TitleRecord>) -> Set<u32>
    decreases rs.len(),
{
    if rs.len() == 0 {
        Set::empty()
    } else {
        title_ids(rs.drop_last()).insert(rs.last().id)
    }
}

/// The title rows that a batch of basics records yields, in order.
pub open spec fn basics_batch(h: Seq<Seq<char>>, recs: Seq<Seq<Seq<char>>>) -> Seq<TitleRecord>
    decreases recs.len(),
{
    if recs.len() == 0 {
        Seq::empty()
    } else {
        let p = basics_batch(h, recs.drop_last());
        match title_record_of(h, recs.last()) {
            Some(t) => p.push(t),
            None => p,
        }
    }
}

/// The alternate-title rows that a batch yields: those that parse and whose
/// title is known.
pub open spec fn akas_batch(known: Set<u32>, h: Seq<Seq<char>>, recs: Seq<Seq<Seq<char>>>) -> Seq<
    AkaRecord,
>
    decreases recs.len(),
{
    if recs.len() == 0 {
        Seq::empty()
    } else {
        let p = akas_batch(known, h, recs.drop_last());
        match aka_record_of(h, recs.last()) {
            Some(a) => if known.contains(a.title_id) {
                p.push(a)
            } else {
                p
            },
            None => p,
        }
    }
}

/// Whether an episode row is kept: both numbers present, the episode and its
/// series known.
pub open spec fn episode_kept(known: Set<u32>, e: EpisodesRow) -> bool {
    &&& e.season_number is Some
    &&& e.episode_number is Some
    &&& known.contains(e.id.0)
    &&& known.contains(e.parent_id.0)
}

pub open spec fn episodes_batch(
    known: Set<u32>,
    h: Seq<Seq<char>>,
    recs: Seq<Seq<Seq<char>>>,
) -> Seq<EpisodesRow>
    decreases recs.len(),
{
    if recs.len() == 0 {
        Seq::empty()
    } else {
        let p = episodes_batch(known, h, recs.drop_last());
        match episode_row_of(h, recs.last()) {
            Some(e) => if episode_kept(known, e) {
                p.push(e)
            } else {
                p
            },
            None => p,
        }
    }
}

pub open spec fn ratings_batch(
    known: Set<u32>,
    h: Seq<Seq<char>>,
    recs: Seq<Seq<Seq<char>>>,
) -> Seq<RatingsRow>
    decreases recs.len(),
{
    if recs.len() == 0 {
        Seq::empty()
    } else {
        let p = ratings_batch(known, h, recs.drop_last());
        match rating_row_of(h, recs.last()) {
            Some(r) => if known.contains(r.id.0) {
                p.push(r)
            } else {
                p
            },
            None => p,
        }
    }
}

pub open spec fn basics_view(rows: Seq<BasicsRow>) -> Seq<TitleRecord> {
    rows.map_values(|x: BasicsRow| x@)
}

pub open spec fn akas_view(rows: Seq<AkasRow>) -> Seq<AkaRecord> {
    rows.map_values(|x: AkasRow| x@)
}

/// The title-basics feed: the anchor, which fills the known-id set.
pub struct BasicsImporter;

/// The alternate-titles feed.
pub struct AkasImporter;

/// The episodes feed.
pub struct EpisodesImporter;

/// The ratings feed.
pub struct RatingsImporter;

impl BasicsImporter {
    pub fn get_name(&self) -> (r: &'static str)
        ensures
            r@ == "title.basics.tsv.gz"@,
    {
        "title.basics.tsv.gz"
    }

    pub fn get_url(&self) -> (r: &'static str)
        ensures
            r@ == "https://datasets.imdbws.com/title.basics.tsv.gz"@,
    {
        "https://datasets.imdbws.com/title.basics.tsv.gz"
    }

    pub fn get_bind_count(&self) -> (r: usize)
        ensures
            r == 9,
    {
        9
    }

    pub fn get_scheduling(&self) -> (r: ImporterScheduling)
        ensures
            r == ImporterScheduling::IsBasics,
    {
        ImporterScheduling::IsBasics
    }

    /// Reads one record; `None` when a field is missing or malformed.
    pub fn parse_row(&self, headers: &Vec<String>, fields: &Vec<String>) -> (r: Option<BasicsRow>)
        ensures
            r matches Some(x) ==> title_record_of(headers.deep_view(), fields.deep_view())
                == Some(x@),
            r is None ==> title_record_of(headers.deep_view(), fields.deep_view()) is None,
    {
        let id = match id_field(headers, fields, "tconst") {
            Some(id) => id,
            None => return None,
        };
        let kind = match field(headers, fields, "titleType") {
            Some(s) => match TitleKind::from_token(s) {
                Some(k) => k,
                None => return None,
            },
            None => return None,
        };
        let primary = match field(headers, fields, "primaryTitle") {
            Some(s) => s,
            None => return None,
        };
        let original = match field(headers, fields, "originalTitle") {
            Some(s) => s,
            None => return None,
        };
        let is_adult = match flag_field(headers, fields, "isAdult") {
            Some(b) => b,
            None => return None,
        };
        let start_year = match nullable_i32_field(headers, fields, "startYear") {
            Some(v) => v,
            None => return None,
        };
        let end_year = match nullable_i32_field(headers, fields, "endYear") {
            Some(v) => v,
            None => return None,
        };
        let runtime_minutes = match nullable_i32_field(headers, fields, "runtimeMinutes") {
            Some(v) => v,
            None => return None,
        };
        let genres = match nullable_text_field(headers, fields, "genres") {
            Some(v) => v,
            None => return None,
        };
        let original_title = if str_eq(original, primary) {
            None
        } else {
            Some(original.to_owned())
        };
        Some(
            BasicsRow {
                id,
                kind,
                primary_title: primary.to_owned(),
                original_title,
                is_adult,
                start_year,
                end_year,
                runtime_minutes,
                genres,
            },
        )
    }

    /// The rows of a batch to upsert, in order; each row's id joins `known`.
    pub fn prepare_batch(
        &self,
        known: &mut KnownIds,
        headers: &Vec<String>,
        records: &Vec<Vec<String>>,
    ) -> (r: Vec<BasicsRow>)
        ensures
            basics_view(r@) == basics_batch(headers.deep_view(), records.deep_view()),
            final(known)@ == old(known)@.union(title_ids(basics_view(r@))),
    {
        let ghost h = headers.deep_view();
        let ghost recs = records.deep_view();
        let mut out: Vec<BasicsRow> = Vec::new();
        let mut i: usize = 0;
        assert(basics_view(out@) =~= Seq::<TitleRecord>::empty());
        assert(old(known)@.union(Set::empty()) =~= old(known)@);
        while i < records.len()
            invariant
                0 <= i <= records.len(),
                h == headers.deep_view(),
                recs == records.deep_view(),
                basics_view(out@) == basics_batch(h, recs.take(i as int)),
                known@ == old(known)@.union(title_ids(basics_view(out@))),
            decreases records.len() - i,
        {
            assert(recs.take(i as int + 1).drop_last() =~= recs.take(i as int));
            assert(recs.take(i as int + 1).last() == records[i as int].deep_view());
            match self.parse_row(headers, &records[i]) {
                Some(row) => {
                    let ghost before = basics_view(out@);
                    let id = row.id.0;
                    known.insert(id);
                    out.push(row);
                    assert(basics_view(out@) =~= before.push(row@));
                    assert(basics_view(out@).drop_last() =~= before);
                    assert(known@ =~= old(known)@.union(title_ids(basics_view(out@))));
                },
                None => {},
            }
            i = i + 1;
        }
        assert(recs.take(records.len() as int) =~= recs);
        out
    }
}

impl AkasImporter {
    pub fn get_name(&self) -> (r: &'static str)
        ensures
            r@ == "title.akas.tsv.gz"@,
    {
        "title.akas.tsv.gz"
    }

    pub fn get_url(&self) -> (r: &'static str)
        ensures
            r@ == "https://datasets.imdbws.com/title.akas.tsv.gz"@,
    {
        "https://datasets.imdbws.com/title.akas.tsv.gz"
    }

    pub fn get_bind_count(&self) -> (r: usize)
        ensures
            r == 8,
    {
        8
    }

    pub fn get_scheduling(&self) -> (r: ImporterScheduling)
        ensures
            r == ImporterScheduling::WaitForBasics,
    {
        ImporterScheduling::WaitForBasics
    }

    /// Reads one record; `None` when a field is missing or malformed.
    pub fn parse_row(&self, headers: &Vec<String>, fields: &Vec<String>) -> (r: Option<AkasRow>)
        ensures
            r matches Some(x) ==> aka_record_of(headers.deep_view(), fields.deep_view()) == Some(
                x@,
            ),
            r is None ==> aka_record_of(headers.deep_view(), fields.deep_view()) is None,
    {
        let title_id = match id_field(headers, fields, "titleId") {
            Some(id) => id,
            None => return None,
        };
        let ordering = match field(headers, fields, "ordering") {
            Some(s) => match parse_i32(s) {
                Some(v) => v,
                None => return None,
            },
            None => return None,
        };
        let title = match field(headers, fields, "title") {
            Some(s) => s,
            None => return None,
        };
        let region = match nullable_text_field(headers, fields, "region") {
            Some(v) => v,
            None => return None,
        };
        let language = match nullable_text_field(headers, fields, "language") {
            Some(v) => v,
            None => return None,
        };
        let types = match nullable_text_field(headers, fields, "types") {
            Some(v) => v,
            None => return None,
        };
        let attributes = match nullable_text_field(headers, fields, "attributes") {
            Some(v) => v,
            None => return None,
        };
        let is_original_title = match flag_field(headers, fields, "isOriginalTitle") {
            Some(b) => b,
            None => return None,
        };
        Some(
            AkasRow {
                title_id,
                ordering,
                title: title.to_owned(),
                region,
                language,
                types,
                attributes,
                is_original_title,
            },
        )
    }

    /// The rows of a batch to upsert, in order: those that parse and whose
    /// title is in `known`.
    pub fn prepare_batch(&self, known: &KnownIds, headers: &Vec<String>, records: &Vec<Vec<String>>) -> (r: Vec<AkasRow>)
        ensures
            akas_view(r@) == akas_batch(known@, headers.deep_view(), records.deep_view()),
    {
        let ghost h = headers.deep_view();
        let ghost recs = records.deep_view();
        let mut out: Vec<AkasRow> = Vec::new();
        let mut i: usize = 0;
        assert(akas_view(out@) =~= Seq::<AkaRecord>::empty());
        while i < records.len()
            invariant
                0 <= i <= records.len(),
                h == headers.deep_view(),
                recs == records.deep_view(),
                akas_view(out@) == akas_batch(known@, h, recs.take(i as int)),
            decreases records.len() - i,
        {
            assert(recs.take(i as int + 1).drop_last() =~= recs.take(i as int));
            assert(recs.take(i as int + 1).last() == records[i as int].deep_view());
            match self.parse_row(headers, &records[i]) {
                Some(row) => {
                    if known.contains(row.title_id.0) {
                        let ghost before = akas_view(out@);
                        out.push(row);
                        assert(akas_view(out@) =~= before.push(row@));
                    }
                },
                None => {},
            }
            i = i + 1;
        }
        assert(recs.take(records.len() as int) =~= recs);
        out
    }
}

impl EpisodesImporter {
    pub fn get_name(&self) -> (r: &'static str)
        ensures
            r@ == "title.episode.tsv.gz"@,
    {
        "title.episode.tsv.gz"
    }

    pub fn get_url(&self) -> (r: &'static str)
        ensures
            r@ == "https://datasets.imdbws.com/title.episode.tsv.gz"@,
    {
        "https://datasets.imdbws.com/title.episode.tsv.gz"
    }

    pub fn get_bind_count(&self) -> (r: usize)
        ensures
            r == 4,
    {
        4
    }

    pub fn get_scheduling(&self) -> (r: ImporterScheduling)
        ensures
            r == ImporterScheduling::WaitForBasics,
    {
        ImporterScheduling::WaitForBasics
    }

    /// Reads one record; `None` when a field is missing or malformed.
    pub fn parse_row(&self, headers: &Vec<String>, fields: &Vec<String>) -> (r: Option<EpisodesRow>)
        ensures
            r == episode_row_of(headers.deep_view(), fields.deep_view()),
    {
        let id = match id_field(headers, fields, "tconst") {
            Some(id) => id,
            None => return None,
        };
        let parent_id = match id_field(headers, fields, "parentTconst") {
            Some(id) => id,
            None => return None,
        };
        let season_number = match nullable_i32_field(headers, fields, "seasonNumber") {
            Some(v) => v,
            None => return None,
        };
        let episode_number = match nullable_i32_field(headers, fields, "episodeNumber") {
            Some(v) => v,
            None => return None,
        };
        Some(EpisodesRow { id, parent_id, season_number, episode_number })
    }

    /// The rows of a batch to upsert, in order: those that parse, carry both
    /// numbers, and whose episode and series are in `known`.
    pub fn prepare_batch(&self, known: &KnownIds, headers: &Vec<String>, records: &Vec<Vec<String>>) -> (r: Vec<EpisodesRow>)
        ensures
            r@ == episodes_batch(known@, headers.deep_view(), records.deep_view()),
    {
        let ghost h = headers.deep_view();
        let ghost recs = records.deep_view();
        let mut out: Vec<EpisodesRow> = Vec::new();
        let mut i: usize = 0;
        while i < records.len()
            invariant
                0 <= i <= records.len(),
                h == headers.deep_view(),
                recs == records.deep_view(),
                out@ == episodes_batch(known@, h, recs.take(i as int)),
            decreases records.len() - i,
        {
            assert(recs.take(i as int + 1).drop_last() =~= recs.take(i as int));
            assert(recs.take(i as int + 1).last() == records[i as int].deep_view());
            match self.parse_row(headers, &records[i]) {
                Some(row) => {
                    if row.season_number.is_some() && row.episode_number.is_some()
                        && known.contains(row.id.0) && known.contains(row.parent_id.0) {
                        out.push(row);
                    }
                },
                None => {},
            }
            i = i + 1;
        }
        assert(recs.take(records.len() as int) =~= recs);
        out
    }
}

impl RatingsImporter {
    pub fn get_name(&self) -> (r: &'static str)
        ensures
            r@ == "title.ratings.tsv.gz"@,
    {
        "title.ratings.tsv.gz"
    }

    pub fn get_url(&self) -> (r: &'static str)
        ensures
            r@ == "https://datasets.imdbws.com/title.ratings.tsv.gz"@,
    {
        "https://datasets.imdbws.com/title.ratings.tsv.gz"
    }

    pub fn get_bind_count(&self) -> (r: usize)
        ensures
            r == 3,
    {
        3
    }

    pub fn get_scheduling(&self) -> (r: ImporterScheduling)
        ensures
            r == ImporterScheduling::WaitForBasics,
    {
        ImporterScheduling::WaitForBasics
    }

    /// Reads one record; `None` when a field is missing or malformed.
    pub fn parse_row(&self, headers: &Vec<String>, fields: &Vec<String>) -> (r: Option<RatingsRow>)
        ensures
            r == rating_row_of(headers.deep_view(), fields.deep_view()),
    {
        let id = match id_field(headers, fields, "tconst") {
            Some(id) => id,
            None => return None,
        };
        let average_rating_tenths = match field(headers, fields, "averageRating") {
            Some(s) => match parse_tenths(s) {
                Some(v) => v,
                None => return None,
            },
            None => return None,
        };
        let num_votes = match field(headers, fields, "numVotes") {
            Some(s) => match parse_count(s) {
                Some(v) => v,
                None => return None,
            },
            None => return None,
        };
        Some(RatingsRow { id, average_rating_tenths, num_votes })
    }

    /// The rows of a batch to upsert, in order: those that parse and whose
    /// title is in `known`.
    pub fn prepare_batch(&self, known: &KnownIds, headers: &Vec<String>, records: &Vec<Vec<String>>) -> (r: Vec<RatingsRow>)
        ensures
            r@ == ratings_batch(known@, headers.deep_view(), records.deep_view()),
    {
        let ghost h = headers.deep_view();
        let ghost recs = records.deep_view();
        let mut out: Vec<RatingsRow> = Vec::new();
        let mut i: usize = 0;
        while i < records.len()
            invariant
                0 <= i <= records.len(),
                h == headers.deep_view(),
                recs == records.deep_view(),
                out@ == ratings_batch(known@, h, recs.take(i as int)),
            decreases records.len() - i,
        {
            assert(recs.take(i as int + 1).drop_last() =~= recs.take(i as int));
            assert(recs.take(i as int + 1).last() == records[i as int].deep_view());
            match self.parse_row(headers, &records[i]) {
                Some(row) => {
                    if known.contains(row.id.0) {
                        out.push(row);
                    }
                },
                None => {},
            }
            i = i + 1;
        }
        assert(recs.take(records.len() as int) =~= recs);
        out
    }
}

/// One of the four feeds.
#[derive(Clone, Copy, PartialEq, Eq, Debug, Structural)]
pub enum Feed {
    Basics,
    Akas,
    Episodes,
    Ratings,
}

pub open spec fn feed_name(f: Feed) -> Seq<char> {
    match f {
        Feed::Basics => "title.basics.tsv.gz"@,
        Feed::Akas => "title.akas.tsv.gz"@,
        Feed::Episodes => "title.episode.tsv.gz"@,
        Feed::Ratings => "title.ratings.tsv.gz"@,
    }
}

pub open spec fn feed_url(f: Feed) -> Seq<char> {
    match f {
        Feed::Basics => "https://datasets.imdbws.com/title.basics.tsv.gz"@,
        Feed::Akas => "https://datasets.imdbws.com/title.akas.tsv.gz"@,
        Feed::Episodes => "https://datasets.imdbws.com/title.episode.tsv.gz"@,
        Feed::Ratings => "https://datasets.imdbws.com/title.ratings.tsv.gz"@,
    }
}

pub open spec fn feed_bind_count(f: Feed) -> nat {
    match f {
        Feed::Basics => 9,
        Feed::Akas => 8,
        Feed::Episodes => 4,
        Feed::Ratings => 3,
    }
}

pub open spec fn feed_scheduling(f: Feed) -> ImporterScheduling {
    match f {
        Feed::Basics => ImporterScheduling::IsBasics,
        _ => ImporterScheduling::WaitForBasics,
    }
}

/// Whether importing the feed changes what the search index is built from.
pub open spec fn feed_feeds_search(f: Feed) -> bool {
    f == Feed::Basics || f == Feed::Akas
}

impl Feed {
    /// The cached file's name.
    pub fn get_name(&self) -> (r: &'static str)
        ensures
            r@ == feed_name(*self),
    {
        match self {
            Feed::Basics => BasicsImporter.get_name(),
            Feed::Akas => AkasImporter.get_name(),
            Feed::Episodes => EpisodesImporter.get_name(),
            Feed::Ratings => RatingsImporter.get_name(),
        }
    }

    pub fn get_url(&self) -> (r: &'static str)
        ensures
            r@ == feed_url(*self),
    {
        match self {
            Feed::Basics => BasicsImporter.get_url(),
            Feed::Akas => AkasImporter.get_url(),
            Feed::Episodes => EpisodesImporter.get_url(),
            Feed::Ratings => RatingsImporter.get_url(),
        }
    }

    /// The columns written per row.
    pub fn get_bind_count(&self) -> (r: usize)
        ensures
            r == feed_bind_count(*self),
    {
        match self {
            Feed::Basics => BasicsImporter.get_bind_count(),
            Feed::Akas => AkasImporter.get_bind_count(),
            Feed::Episodes => EpisodesImporter.get_bind_count(),
            Feed::Ratings => RatingsImporter.get_bind_count(),
        }
    }

    pub fn get_scheduling(&self) -> (r: ImporterScheduling)
        ensures
            r == feed_scheduling(*self),
    {
        match self {
            Feed::Basics => BasicsImporter.get_scheduling(),
            Feed::Akas => AkasImporter.get_scheduling(),
            Feed::Episodes => EpisodesImporter.get_scheduling(),
            Feed::Ratings => RatingsImporter.get_scheduling(),
        }
    }

    /// Whether importing this feed calls for a search-index rebuild.
    pub fn feeds_search(&self) -> (r: bool)
        ensures
            r == feed_feeds_search(*self),
    {
        match self {
            Feed::Basics | Feed::Akas => true,
            _ => false,
        }
    }

    /// The rows per batch for this feed.
    pub fn batch_size(&self) -> (r: usize)
        ensures
            r == batch_size_for(feed_bind_count(*self)),
            r * feed_bind_count(*self) <= MAX_BIND_VALUES,
            r <= MAX_BATCH_SIZE,
            r >= 1,
    {
        batch_size(self.get_bind_count())
    }
}

/// The four feeds, the anchor first.
pub fn get_importers() -> (r: Vec<Feed>)
    ensures
        r@ == seq![Feed::Basics, Feed::Akas, Feed::Episodes, Feed::Ratings],
{
    vec![Feed::Basics, Feed::Akas, Feed::Episodes, Feed::Ratings]
}

/// Every feed's batches fit the backend's bound-parameter limit and the batch
/// cap, and the basics feed is the one anchor.
pub proof fn lemma_batch_sizing(f: Feed)
    ensures
        batch_size_for(feed_bind_count(f)) * feed_bind_count(f) <= MAX_BIND_VALUES,
        batch_size_for(feed_bind_count(f)) <= MAX_BATCH_SIZE,
        feed_scheduling(f) == ImporterScheduling::IsBasics <==> f == Feed::Basics,
{
    let b = feed_bind_count(f);
    let q = MAX_BIND_VALUES as nat / b;
    assert(q * b <= MAX_BIND_VALUES) by (nonlinear_arith)
        requires q == MAX_BIND_VALUES as nat / b, b > 0;
    if q >= MAX_BATCH_SIZE {
        assert(MAX_BATCH_SIZE * b <= q * b) by (nonlinear_arith)
            requires MAX_BATCH_SIZE <= q;
    }
}

} // verus!
