//! The rows of the four feeds, read from a TSV record by header name.
use vstd::prelude::*;

use crate::id::{id_value, is_id_text, Id};
use crate::kind::{kind_of_token, TitleKind};
use crate::text::{
    count_of, flag_of, nullable_i32, nullable_i32_of, nullable_text, nullable_text_of,
    parse_count, parse_flag, parse_tenths, str_eq, tenths_of,
};

verus! {

/// The first column at or after `i` whose header is `name`.
pub open spec fn column_from(h: Seq<Seq<char>>, name: Seq<char>, i: int) -> Option<int>
    decreases h.len() - i,
{
    if i < 0 || i >= h.len() {
        None
    } else if h[i] == name {
        Some(i)
    } else {
        column_from(h, name, i + 1)
    }
}

/// The field of record `f` under header `name`, if the header and the field exist.
pub open spec fn field_of(h: Seq<Seq<char>>, f: Seq<Seq<char>>, name: Seq<char>) -> Option<
    Seq<char>,
> {
    match column_from(h, name, 0) {
        Some(i) => if i < f.len() {
            Some(f[i])
        } else {
            None
        },
        None => None,
    }
}

pub open spec fn opt_view(o: Option<String>) -> Option<Seq<char>> {
    match o {
        Some(s) => Some(s@),
        None => None,
    }
}

/// The field of `fields` under header `name`.
pub fn field<'a>(headers: &Vec<String>, fields: &'a Vec<String>, name: &str) -> (r: Option<
    &'a str,
>)
    ensures
        r matches Some(x) ==> field_of(headers.deep_view(), fields.deep_view(), name@) == Some(
            x@,
        ),
        r is None ==> field_of(headers.deep_view(), fields.deep_view(), name@) is None,
{
    let ghost h = headers.deep_view();
    let mut i: usize = 0;
    while i < headers.len()
        invariant
            0 <= i <= headers.len(),
            h == headers.deep_view(),
            column_from(h, name@, 0) == column_from(h, name@, i as int),
        decreases headers.len() - i,
    {
        if str_eq(headers[i].as_str(), name) {
            assert(h[i as int] == headers[i as int]@);
            if i < fields.len() {
                assert(fields.deep_view()[i as int] == fields[i as int]@);
                return Some(fields[i].as_str());
            } else {
                return None;
            }
        }
        i = i + 1;
    }
    None
}

/// A row of the title-basics feed, as stored: `original_title` is absent
/// when it equals `primary_title`.
pub struct BasicsRow {
    pub id: Id,
    pub kind: TitleKind,
    pub primary_title: String,
    pub original_title: Option<String>,
    pub is_adult: bool,
    pub start_year: Option<i32>,
    pub end_year: Option<i32>,
    pub runtime_minutes: Option<i32>,
    pub genres: Option<String>,
}

pub struct TitleRecord {
    pub id: u32,
    pub kind: TitleKind,
    pub primary_title: Seq<char>,
    pub original_title: Option<Seq<char>>,
    pub is_adult: bool,
    pub start_year: Option<i32>,
    pub end_year: Option<i32>,
    pub runtime_minutes: Option<i32>,
    pub genres: Option<Seq<char>>,
}

impl View for BasicsRow {
    type V = TitleRecord;

    open spec fn view(&self) -> TitleRecord {
        TitleRecord {
            id: self.id.0,
            kind: self.kind,
            primary_title: self.primary_title@,
            original_title: opt_view(self.original_title),
            is_adult: self.is_adult,
            start_year: self.start_year,
            end_year: self.end_year,
            runtime_minutes: self.runtime_minutes,
            genres: opt_view(self.genres),
        }
    }
}

/// A row of the alternate-titles feed.
pub struct AkasRow {
    pub title_id: Id,
    pub ordering: i32,
    pub title: String,
    pub region: Option<String>,
    pub language: Option<String>,
    pub types: Option<String>,
    pub attributes: Option<String>,
    pub is_original_title: bool,
}

pub struct AkaRecord {
    pub title_id: u32,
    pub ordering: i32,
    pub title: Seq<char>,
    pub region: Option<Seq<char>>,
    pub language: Option<Seq<char>>,
    pub types: Option<Seq<char>>,
    pub attributes: Option<Seq<char>>,
    pub is_original_title: bool,
}

impl View for AkasRow {
    type V = AkaRecord;

    open spec fn view(&self) -> AkaRecord {
        AkaRecord {
            title_id: self.title_id.0,
            ordering: self.ordering,
            title: self.title@,
            region: opt_view(self.region),
            language: opt_view(self.language),
            types: opt_view(self.types),
            attributes: opt_view(self.attributes),
            is_original_title: self.is_original_title,
        }
    }
}

/// A row of the episodes feed.
#[derive(Clone, Copy, PartialEq, Eq, Debug, Structural)]
pub struct EpisodesRow {
    pub id: Id,
    pub parent_id: Id,
    pub season_number: Option<i32>,
    pub episode_number: Option<i32>,
}

/// A row of the ratings feed; the average is kept in tenths (`8.6` is `86`).
#[derive(Clone, Copy, PartialEq, Eq, Debug, Structural)]
pub struct RatingsRow {
    pub id: Id,
    pub average_rating_tenths: u32,
    pub num_votes: u32,
}

pub open spec fn title_record_of(h: Seq<Seq<char>>, f: Seq<Seq<char>>) -> Option<TitleRecord> {
    let tconst = field_of(h, f, "tconst"@);
    let title_type = field_of(h, f, "titleType"@);
    let primary = field_of(h, f, "primaryTitle"@);
    let original = field_of(h, f, "originalTitle"@);
    let adult = field_of(h, f, "isAdult"@);
    let start = field_of(h, f, "startYear"@);
    let end = field_of(h, f, "endYear"@);
    let runtime = field_of(h, f, "runtimeMinutes"@);
    let genres = field_of(h, f, "genres"@);
    if tconst is Some && is_id_text(tconst->0) && title_type is Some && kind_of_token(
        title_type->0,
    ) is Some && primary is Some && original is Some && adult is Some && flag_of(adult->0) is Some
        && start is Some && nullable_i32_of(start->0) is Some && end is Some && nullable_i32_of(
        end->0,
    ) is Some && runtime is Some && nullable_i32_of(runtime->0) is Some && genres is Some {
        Some(
            TitleRecord {
                id: id_value(tconst->0) as u32,
                kind: kind_of_token(title_type->0)->0,
                primary_title: primary->0,
                original_title: if original->0 == primary->0 {
                    None
                } else {
                    Some(original->0)
                },
                is_adult: flag_of(adult->0)->0,
                start_year: nullable_i32_of(start->0)->0,
                end_year: nullable_i32_of(end->0)->0,
                runtime_minutes: nullable_i32_of(runtime->0)->0,
                genres: nullable_text_of(genres->0),
            },
        )
    } else {
        None
    }
}

pub open spec fn aka_record_of(h: Seq<Seq<char>>, f: Seq<Seq<char>>) -> Option<AkaRecord> {
    let title_id = field_of(h, f, "titleId"@);
    let ordering = field_of(h, f, "ordering"@);
    let title = field_of(h, f, "title"@);
    let region = field_of(h, f, "region"@);
    let language = field_of(h, f, "language"@);
    let types = field_of(h, f, "types"@);
    let attributes = field_of(h, f, "attributes"@);
    let original = field_of(h, f, "isOriginalTitle"@);
    if title_id is Some && is_id_text(title_id->0) && ordering is Some && crate::text::i32_of(
        ordering->0,
    ) is Some && title is Some && region is Some && language is Some && types is Some
        && attributes is Some && original is Some && flag_of(original->0) is Some {
        Some(
            AkaRecord {
                title_id: id_value(title_id->0) as u32,
                ordering: crate::text::i32_of(ordering->0)->0,
                title: title->0,
                region: nullable_text_of(region->0),
                language: nullable_text_of(language->0),
                types: nullable_text_of(types->0),
                attributes: nullable_text_of(attributes->0),
                is_original_title: flag_of(original->0)->0,
            },
        )
    } else {
        None
    }
}

pub open spec fn episode_row_of(h: Seq<Seq<char>>, f: Seq<Seq<char>>) -> Option<EpisodesRow> {
    let tconst = field_of(h, f, "tconst"@);
    let parent = field_of(h, f, "parentTconst"@);
    let season = field_of(h, f, "seasonNumber"@);
    let episode = field_of(h, f, "episodeNumber"@);
    if tconst is Some && is_id_text(tconst->0) && parent is Some && is_id_text(parent->0)
        && season is Some && nullable_i32_of(season->0) is Some && episode is Some
        && nullable_i32_of(episode->0) is Some {
        Some(
            EpisodesRow {
                id: Id(id_value(tconst->0) as u32),
                parent_id: Id(id_value(parent->0) as u32),
                season_number: nullable_i32_of(season->0)->0,
                episode_number: nullable_i32_of(episode->0)->0,
            },
        )
    } else {
        None
    }
}

pub open spec fn rating_row_of(h: Seq<Seq<char>>, f: Seq<Seq<char>>) -> Option<RatingsRow> {
    let tconst = field_of(h, f, "tconst"@);
    let average = field_of(h, f, "averageRating"@);
    let votes = field_of(h, f, "numVotes"@);
    if tconst is Some && is_id_text(tconst->0) && average is Some && tenths_of(average->0) is Some
        && votes is Some && count_of(votes->0) is Some {
        Some(
            RatingsRow {
                id: Id(id_value(tconst->0) as u32),
                average_rating_tenths: tenths_of(average->0)->0,
                num_votes: count_of(votes->0)->0,
            },
        )
    } else {
        None
    }
}

/// Reads an identifier field.
pub(crate) fn id_field(headers: &Vec<String>, fields: &Vec<String>, name: &str) -> (r: Option<Id>)
    ensures
        r matches Some(id) ==> ({
            let x = field_of(headers.deep_view(), fields.deep_view(), name@);
            x is Some && is_id_text(x->0) && id.0 == id_value(x->0)
        }),
        r is None ==> ({
            let x = field_of(headers.deep_view(), fields.deep_view(), name@);
            !(x is Some && is_id_text(x->0))
        }),
{
    match field(headers, fields, name) {
        Some(s) => match Id::parse(s) {
            Ok(id) => Some(id),
            Err(_) => None,
        },
        None => None,
    }
}

/// Reads a nullable integer field; `None` when the field is missing or malformed.
pub(crate) fn nullable_i32_field(headers: &Vec<String>, fields: &Vec<String>, name: &str) -> (r: Option<
    Option<i32>,
>)
    ensures
        ({
            let x = field_of(headers.deep_view(), fields.deep_view(), name@);
            &&& r is Some <==> (x is Some && nullable_i32_of(x->0) is Some)
            &&& r is Some ==> r == nullable_i32_of(x->0)
        }),
{
    match field(headers, fields, name) {
        Some(s) => match nullable_i32(s) {
            Ok(v) => Some(v),
            Err(_) => None,
        },
        None => None,
    }
}

/// Reads a nullable text field; `None` when the field is missing.
pub(crate) fn nullable_text_field(headers: &Vec<String>, fields: &Vec<String>, name: &str) -> (r: Option<
    Option<String>,
>)
    ensures
        ({
            let x = field_of(headers.deep_view(), fields.deep_view(), name@);
            &&& r is Some <==> x is Some
            &&& r matches Some(v) ==> opt_view(v) == nullable_text_of(x->0)
        }),
{
    match field(headers, fields, name) {
        Some(s) => Some(nullable_text(s)),
        None => None,
    }
}

/// Reads a flag field written as `0` or `1`.
pub(crate) fn flag_field(headers: &Vec<String>, fields: &Vec<String>, name: &str) -> (r: Option<bool>)
    ensures
        ({
            let x = field_of(headers.deep_view(), fields.deep_view(), name@);
            &&& r is Some <==> (x is Some && flag_of(x->0) is Some)
            &&& r is Some ==> r == flag_of(x->0)
        }),
{
    match field(headers, fields, name) {
        Some(s) => parse_flag(s),
        None => None,
    }
}

} // verus!
