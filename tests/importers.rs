use hubble::id::Id;
use hubble::importers::{
    batch_size, get_importers, AkasImporter, BasicsImporter, EpisodesImporter, Feed,
    ImporterScheduling, RatingsImporter,
};
use hubble::kind::TitleKind;
use hubble::known_ids::KnownIds;
use hubble::rows::EpisodesRow;

fn rec(fields: &[&str]) -> Vec<String> {
    fields.iter().map(|s| s.to_string()).collect()
}

fn basics_headers() -> Vec<String> {
    rec(&[
        "tconst", "titleType", "primaryTitle", "originalTitle", "isAdult", "startYear", "endYear",
        "runtimeMinutes", "genres",
    ])
}

fn akas_headers() -> Vec<String> {
    rec(&[
        "titleId", "ordering", "title", "region", "language", "types", "attributes",
        "isOriginalTitle",
    ])
}

fn episode_headers() -> Vec<String> {
    rec(&["tconst", "parentTconst", "seasonNumber", "episodeNumber"])
}

fn ratings_headers() -> Vec<String> {
    rec(&["tconst", "averageRating", "numVotes"])
}

fn known_of(ids: &[u32]) -> KnownIds {
    let mut k = KnownIds::new();
    for id in ids {
        k.insert(*id);
    }
    k
}

#[test]
fn basics_row_parses_every_column() {
    let row = BasicsImporter
        .parse_row(
            &basics_headers(),
            &rec(&["tt0076759", "movie", "Star Wars", "Star Wars: Episode IV", "0", "1977", "\\N", "121", "Action,Adventure"]),
        )
        .unwrap();
    assert_eq!(row.id, Id(76759));
    assert_eq!(row.kind, TitleKind::Movie);
    assert_eq!(row.primary_title, "Star Wars");
    assert_eq!(row.original_title, Some("Star Wars: Episode IV".to_string()));
    assert!(!row.is_adult);
    assert_eq!(row.start_year, Some(1977));
    assert_eq!(row.end_year, None);
    assert_eq!(row.runtime_minutes, Some(121));
    assert_eq!(row.genres, Some("Action,Adventure".to_string()));
}

#[test]
fn null_in_every_optional_field_gives_absents() {
    let row = BasicsImporter
        .parse_row(
            &basics_headers(),
            &rec(&["tt0000001", "short", "Carmencita", "Carmencita", "1", "\\N", "\\N", "\\N", "\\N"]),
        )
        .unwrap();
    assert_eq!(row.start_year, None);
    assert_eq!(row.end_year, None);
    assert_eq!(row.runtime_minutes, None);
    assert_eq!(row.genres, None);
    assert!(row.is_adult);
    let aka = AkasImporter
        .parse_row(&akas_headers(), &rec(&["tt0000001", "1", "Carmencita", "\\N", "\\N", "\\N", "\\N", "0"]))
        .unwrap();
    assert_eq!(aka.region, None);
    assert_eq!(aka.language, None);
    assert_eq!(aka.types, None);
    assert_eq!(aka.attributes, None);
    let ep = EpisodesImporter
        .parse_row(&episode_headers(), &rec(&["tt0000002", "tt0000001", "\\N", "\\N"]))
        .unwrap();
    assert_eq!(ep.season_number, None);
    assert_eq!(ep.episode_number, None);
}

#[test]
fn equal_original_title_is_stored_absent() {
    let row = BasicsImporter
        .parse_row(
            &basics_headers(),
            &rec(&["tt0000001", "short", "Carmencita", "Carmencita", "0", "1894", "\\N", "1", "Documentary"]),
        )
        .unwrap();
    assert_eq!(row.original_title, None);
}

#[test]
fn malformed_rows_are_dropped() {
    let h = basics_headers();
    // unknown kind
    assert!(BasicsImporter
        .parse_row(&h, &rec(&["tt0000001", "podcast", "A", "A", "0", "\\N", "\\N", "\\N", "\\N"]))
        .is_none());
    // bad year
    assert!(BasicsImporter
        .parse_row(&h, &rec(&["tt0000001", "movie", "A", "A", "0", "19x4", "\\N", "\\N", "\\N"]))
        .is_none());
    // bad id
    assert!(BasicsImporter
        .parse_row(&h, &rec(&["0000001", "movie", "A", "A", "0", "\\N", "\\N", "\\N", "\\N"]))
        .is_none());
    // missing column
    assert!(BasicsImporter.parse_row(&h, &rec(&["tt0000001", "movie"])).is_none());
    // columns found by name, in any order
    let swapped = rec(&["titleType", "tconst", "primaryTitle", "originalTitle", "isAdult", "startYear", "endYear", "runtimeMinutes", "genres"]);
    let row = BasicsImporter
        .parse_row(&swapped, &rec(&["movie", "tt0000007", "A", "B", "0", "\\N", "\\N", "\\N", "\\N"]))
        .unwrap();
    assert_eq!(row.id, Id(7));
}

#[test]
fn basics_batch_fills_known_ids() {
    let mut known = KnownIds::new();
    let records = vec![
        rec(&["tt0000001", "movie", "One", "One", "0", "\\N", "\\N", "\\N", "\\N"]),
        rec(&["tt0000002", "bogus", "Two", "Two", "0", "\\N", "\\N", "\\N", "\\N"]),
        rec(&["tt0000003", "tvSeries", "Three", "Drei", "0", "2001", "2004", "\\N", "Drama"]),
    ];
    let rows = BasicsImporter.prepare_batch(&mut known, &basics_headers(), &records);
    assert_eq!(rows.len(), 2);
    assert_eq!(rows[0].id, Id(1));
    assert_eq!(rows[1].id, Id(3));
    assert_eq!(rows[1].original_title, Some("Drei".to_string()));
    assert!(known.contains(1));
    assert!(!known.contains(2));
    assert!(known.contains(3));
}

#[test]
fn episode_without_numbers_is_discarded() {
    let known = known_of(&[1, 2, 3, 4]);
    let records = vec![
        rec(&["tt0000002", "tt0000001", "1", "1"]),
        rec(&["tt0000003", "tt0000001", "\\N", "2"]),
        rec(&["tt0000004", "tt0000001", "1", "\\N"]),
    ];
    let rows = EpisodesImporter.prepare_batch(&known, &episode_headers(), &records);
    assert_eq!(
        rows,
        vec![EpisodesRow { id: Id(2), parent_id: Id(1), season_number: Some(1), episode_number: Some(1) }]
    );
}

#[test]
fn episode_of_unknown_series_is_discarded() {
    let known = known_of(&[2]);
    let records = vec![rec(&["tt0000002", "tt0000001", "1", "1"])];
    let rows = EpisodesImporter.prepare_batch(&known, &episode_headers(), &records);
    assert!(rows.is_empty());
}

#[test]
fn aka_of_unknown_title_is_discarded() {
    let mut known = KnownIds::new();
    let basics = vec![rec(&["tt0000001", "movie", "Star Wars", "Star Wars", "0", "1977", "\\N", "121", "Action"])];
    BasicsImporter.prepare_batch(&mut known, &basics_headers(), &basics);
    let records = vec![
        rec(&["tt0000001", "5", "Guerre stellari", "IT", "it", "imdbDisplay", "\\N", "0"]),
        rec(&["tt0000099", "1", "Orphan", "US", "\\N", "\\N", "\\N", "0"]),
    ];
    let rows = AkasImporter.prepare_batch(&known, &akas_headers(), &records);
    assert_eq!(rows.len(), 1);
    assert_eq!(rows[0].title_id, Id(1));
    assert_eq!(rows[0].ordering, 5);
    assert_eq!(rows[0].title, "Guerre stellari");
    assert_eq!(rows[0].region, Some("IT".to_string()));
    assert_eq!(rows[0].types, Some("imdbDisplay".to_string()));
    assert!(!rows[0].is_original_title);
}

#[test]
fn orphan_rating_is_discarded() {
    let known = known_of(&[1, 2, 3]);
    let records = vec![
        rec(&["tt0000001", "8.6", "5000"]),
        rec(&["tt0000002", "5.0", "12"]),
        rec(&["tt0000003", "7.1", "300"]),
        rec(&["tt0000099", "9.9", "1"]),
    ];
    let rows = RatingsImporter.prepare_batch(&known, &ratings_headers(), &records);
    let ids: Vec<u32> = rows.iter().map(|r| r.id.get()).collect();
    assert_eq!(ids, vec![1, 2, 3]);
    assert_eq!(rows[0].average_rating_tenths, 86);
    assert_eq!(rows[0].num_votes, 5000);
}

#[test]
fn batch_sizes_fit_the_bind_limit() {
    assert_eq!(batch_size(9), 3640);
    assert_eq!(batch_size(8), 4095);
    assert_eq!(batch_size(4), 8191);
    assert_eq!(batch_size(3), 10000);
    assert_eq!(batch_size(1), 10000);
    assert_eq!(batch_size(32766), 1);
    for f in get_importers() {
        let b = f.batch_size();
        assert!(b * f.get_bind_count() <= 32766);
        assert!(b <= 10000);
    }
}

#[test]
fn feeds_and_their_descriptors() {
    let feeds = get_importers();
    assert_eq!(feeds, vec![Feed::Basics, Feed::Akas, Feed::Episodes, Feed::Ratings]);
    let anchors: Vec<&Feed> = feeds.iter().filter(|f| f.get_scheduling() == ImporterScheduling::IsBasics).collect();
    assert_eq!(anchors, vec![&Feed::Basics]);
    assert_eq!(Feed::Akas.get_name(), "title.akas.tsv.gz");
    assert_eq!(Feed::Episodes.get_url(), "https://datasets.imdbws.com/title.episode.tsv.gz");
    assert_eq!(Feed::Ratings.get_bind_count(), 3);
    assert!(Feed::Basics.feeds_search());
    assert!(Feed::Akas.feeds_search());
    assert!(!Feed::Ratings.feeds_search());
    assert_eq!(BasicsImporter.get_bind_count(), 9);
    assert_eq!(RatingsImporter.get_scheduling(), ImporterScheduling::WaitForBasics);
}

#[test]
fn importing_twice_yields_the_same_rows() {
    let records = vec![
        rec(&["tt0000001", "movie", "One", "Uno", "0", "1990", "\\N", "90", "Drama"]),
        rec(&["tt0000001", "movie", "One again", "One again", "0", "1991", "\\N", "91", "Drama"]),
    ];
    let mut known = KnownIds::new();
    let first = BasicsImporter.prepare_batch(&mut known, &basics_headers(), &records);
    let second = BasicsImporter.prepare_batch(&mut known, &basics_headers(), &records);
    assert_eq!(first.len(), second.len());
    for (a, b) in first.iter().zip(second.iter()) {
        assert_eq!(a.id, b.id);
        assert_eq!(a.primary_title, b.primary_title);
        assert_eq!(a.original_title, b.original_title);
        assert_eq!(a.start_year, b.start_year);
    }
    let ratings = vec![rec(&["tt0000001", "8.6", "5000"])];
    let r1 = RatingsImporter.prepare_batch(&known, &ratings_headers(), &ratings);
    let r2 = RatingsImporter.prepare_batch(&known, &ratings_headers(), &ratings);
    assert_eq!(r1, r2);
}
