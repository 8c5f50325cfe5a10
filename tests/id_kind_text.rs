use hubble::id::{Id, InvalidId};
use hubble::kind::TitleKind;
use hubble::text::{
    is_null_field, nullable_i32, nullable_text, parse_count, parse_flag, parse_i32, parse_tenths,
    parse_u64, split_commas, str_eq,
};

#[test]
fn id_formats_with_seven_digits() {
    assert_eq!(Id(1).to_string(), "tt0000001");
    assert_eq!(Id(0).to_string(), "tt0000000");
    assert_eq!(Id(1234567).to_string(), "tt1234567");
    assert_eq!(Id(12345678).to_string(), "tt12345678");
    assert_eq!(Id(u32::MAX).to_string(), "tt4294967295");
    assert_eq!(Id(42).get(), 42);
}

#[test]
fn id_parses_its_own_form() {
    assert_eq!(Id::parse("tt0000001"), Ok(Id(1)));
    assert_eq!(Id::parse("tt12345678"), Ok(Id(12345678)));
    assert_eq!(Id::parse("tt4294967295"), Ok(Id(u32::MAX)));
    for v in [0u32, 1, 9, 10, 999_999, 1_000_000, 9_999_999, 10_000_000, 123_456_789, u32::MAX] {
        let id = Id(v);
        assert_eq!(Id::parse(&id.to_string()), Ok(id));
    }
}

#[test]
fn id_rejects_other_forms() {
    assert_eq!(Id::parse("0000001"), Err(InvalidId));
    assert_eq!(Id::parse("ttabc"), Err(InvalidId));
    assert_eq!(Id::parse(""), Err(InvalidId));
    assert_eq!(Id::parse("tt123"), Err(InvalidId));
    assert_eq!(Id::parse("nm0000001"), Err(InvalidId));
    assert_eq!(Id::parse("tt000000a"), Err(InvalidId));
    assert_eq!(Id::parse("tt4294967296"), Err(InvalidId));
    assert_eq!(Id::parse("tt+0000001"), Err(InvalidId));
}

#[test]
fn kind_codes_and_tokens() {
    assert_eq!(TitleKind::Movie.code(), 0);
    assert_eq!(TitleKind::VideoGame.code(), 10);
    assert_eq!(TitleKind::from_code(6), Some(TitleKind::TvSeries));
    assert_eq!(TitleKind::from_code(11), None);
    assert_eq!(TitleKind::from_code(-1), None);
    assert_eq!(TitleKind::from_token("tvMiniSeries"), Some(TitleKind::TvMiniSeries));
    assert_eq!(TitleKind::from_token("tvminiseries"), None);
    assert_eq!(TitleKind::TvEpisode.token(), "tvEpisode");
    for code in 0..=10i64 {
        let k = TitleKind::from_code(code).unwrap();
        assert_eq!(k.code(), code);
        assert_eq!(TitleKind::from_token(k.token()), Some(k));
    }
    assert!(TitleKind::Short.is_searchable());
    assert!(!TitleKind::TvEpisode.is_searchable());
    assert!(!TitleKind::Video.is_searchable());
}

#[test]
fn null_token_decodes_to_absent() {
    assert!(is_null_field("\\N"));
    assert!(is_null_field(""));
    assert!(!is_null_field("N"));
    assert_eq!(nullable_text("\\N"), None);
    assert_eq!(nullable_text(""), None);
    assert_eq!(nullable_text("Drama,Comedy"), Some("Drama,Comedy".to_string()));
    assert_eq!(nullable_i32("\\N"), Ok(None));
    assert_eq!(nullable_i32(""), Ok(None));
    assert_eq!(nullable_i32("1994"), Ok(Some(1994)));
    assert_eq!(nullable_i32("19x4"), Err(()));
}

#[test]
fn integers_parse_as_std_does() {
    assert_eq!(parse_i32("-5"), Some(-5));
    assert_eq!(parse_i32("+7"), Some(7));
    assert_eq!(parse_i32("2147483647"), Some(i32::MAX));
    assert_eq!(parse_i32("-2147483648"), Some(i32::MIN));
    assert_eq!(parse_i32("2147483648"), None);
    assert_eq!(parse_i32("-"), None);
    assert_eq!(parse_i32(""), None);
    assert_eq!(parse_u64("18446744073709551615"), Some(u64::MAX));
    assert_eq!(parse_u64("18446744073709551616"), None);
    assert_eq!(parse_u64("-1"), None);
    assert_eq!(parse_u64("1024"), Some(1024));
    assert_eq!(parse_count("4294967296"), None);
    assert_eq!(parse_count("5000"), Some(5000));
    assert_eq!(parse_flag("0"), Some(false));
    assert_eq!(parse_flag("1"), Some(true));
    assert_eq!(parse_flag("2"), None);
    assert_eq!(parse_flag("\\N"), None);
}

#[test]
fn ratings_read_in_tenths() {
    assert_eq!(parse_tenths("8.6"), Some(86));
    assert_eq!(parse_tenths("10.0"), Some(100));
    assert_eq!(parse_tenths("7"), Some(70));
    assert_eq!(parse_tenths("1.25"), None);
    assert_eq!(parse_tenths(".5"), None);
    assert_eq!(parse_tenths("x.5"), None);
    assert_eq!(parse_tenths(""), None);
}

#[test]
fn comma_lists_split_as_str_split() {
    assert_eq!(split_commas("Drama,Comedy"), vec!["Drama".to_string(), "Comedy".to_string()]);
    assert_eq!(split_commas(""), vec!["".to_string()]);
    assert_eq!(split_commas("a,"), vec!["a".to_string(), "".to_string()]);
    assert_eq!(split_commas("Ação"), vec!["Ação".to_string()]);
    assert!(str_eq("Ação", "Ação"));
    assert!(!str_eq("Ação", "Acao"));
}
