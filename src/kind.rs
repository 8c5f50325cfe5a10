use vstd::prelude::*;

use crate::text::str_eq;

verus! {

/// The kind of a title, with a stable integer code and a camelCase token.
#[derive(Clone, Copy, PartialEq, Eq, Debug, Structural)]
pub enum TitleKind {
    Movie,
    Short,
    TvEpisode,
    TvMiniSeries,
    TvMovie,
    TvPilot,
    TvSeries,
    TvShort,
    TvSpecial,
    Video,
    VideoGame,
}

pub open spec fn kind_code(k: TitleKind) -> i64 {
    match k {
        TitleKind::Movie => 0,
        TitleKind::Short => 1,
        TitleKind::TvEpisode => 2,
        TitleKind::TvMiniSeries => 3,
        TitleKind::TvMovie => 4,
        TitleKind::TvPilot => 5,
        TitleKind::TvSeries => 6,
        TitleKind::TvShort => 7,
        TitleKind::TvSpecial => 8,
        TitleKind::Video => 9,
        TitleKind::VideoGame => 10,
    }
}

pub open spec fn kind_token(k: TitleKind) -> Seq<char> {
    match k {
        TitleKind::Movie => "movie"@,
        TitleKind::Short => "short"@,
        TitleKind::TvEpisode => "tvEpisode"@,
        TitleKind::TvMiniSeries => "tvMiniSeries"@,
        TitleKind::TvMovie => "tvMovie"@,
        TitleKind::TvPilot => "tvPilot"@,
        TitleKind::TvSeries => "tvSeries"@,
        TitleKind::TvShort => "tvShort"@,
        TitleKind::TvSpecial => "tvSpecial"@,
        TitleKind::Video => "video"@,
        TitleKind::VideoGame => "videoGame"@,
    }
}

/// The kind whose token is `s`.
pub open spec fn kind_of_token(s: Seq<char>) -> Option<TitleKind> {
    if s == "movie"@ {
        Some(TitleKind::Movie)
    } else if s == "short"@ {
        Some(TitleKind::Short)
    } else if s == "tvEpisode"@ {
        Some(TitleKind::TvEpisode)
    } else if s == "tvMiniSeries"@ {
        Some(TitleKind::TvMiniSeries)
    } else if s == "tvMovie"@ {
        Some(TitleKind::TvMovie)
    } else if s == "tvPilot"@ {
        Some(TitleKind::TvPilot)
    } else if s == "tvSeries"@ {
        Some(TitleKind::TvSeries)
    } else if s == "tvShort"@ {
        Some(TitleKind::TvShort)
    } else if s == "tvSpecial"@ {
        Some(TitleKind::TvSpecial)
    } else if s == "video"@ {
        Some(TitleKind::Video)
    } else if s == "videoGame"@ {
        Some(TitleKind::VideoGame)
    } else {
        None
    }
}

/// The kinds that text search returns.
pub open spec fn kind_searchable(k: TitleKind) -> bool {
    match k {
        TitleKind::Movie | TitleKind::Short | TitleKind::TvMiniSeries | TitleKind::TvMovie
        | TitleKind::TvSeries | TitleKind::VideoGame => true,
        _ => false,
    }
}

impl TitleKind {
    /// The stored integer code.
    pub fn code(&self) -> (r: i64)
        ensures
            r == kind_code(*self),
    {
        match self {
            TitleKind::Movie => 0,
            TitleKind::Short => 1,
            TitleKind::TvEpisode => 2,
            TitleKind::TvMiniSeries => 3,
            TitleKind::TvMovie => 4,
            TitleKind::TvPilot => 5,
            TitleKind::TvSeries => 6,
            TitleKind::TvShort => 7,
            TitleKind::TvSpecial => 8,
            TitleKind::Video => 9,
            TitleKind::VideoGame => 10,
        }
    }

    /// The kind stored under `code`; unknown codes give `None`.
    pub fn from_code(code: i64) -> (r: Option<TitleKind>)
        ensures
            r matches Some(k) ==> kind_code(k) == code,
            r is None <==> !(0 <= code <= 10),
    {
        match code {
            0 => Some(TitleKind::Movie),
            1 => Some(TitleKind::Short),
            2 => Some(TitleKind::TvEpisode),
            3 => Some(TitleKind::TvMiniSeries),
            4 => Some(TitleKind::TvMovie),
            5 => Some(TitleKind::TvPilot),
            6 => Some(TitleKind::TvSeries),
            7 => Some(TitleKind::TvShort),
            8 => Some(TitleKind::TvSpecial),
            9 => Some(TitleKind::Video),
            10 => Some(TitleKind::VideoGame),
            _ => None,
        }
    }

    /// The camelCase token of the upstream feed and the query API.
    pub fn token(&self) -> (r: &'static str)
        ensures
            r@ == kind_token(*self),
    {
        match self {
            TitleKind::Movie => "movie",
            TitleKind::Short => "short",
            TitleKind::TvEpisode => "tvEpisode",
            TitleKind::TvMiniSeries => "tvMiniSeries",
            TitleKind::TvMovie => "tvMovie",
            TitleKind::TvPilot => "tvPilot",
            TitleKind::TvSeries => "tvSeries",
            TitleKind::TvShort => "tvShort",
            TitleKind::TvSpecial => "tvSpecial",
            TitleKind::Video => "video",
            TitleKind::VideoGame => "videoGame",
        }
    }

    /// The kind whose token is `s`; any other text gives `None`.
    pub fn from_token(s: &str) -> (r: Option<TitleKind>)
        ensures
            r == kind_of_token(s@),
            r matches Some(k) ==> kind_token(k) == s@,
    {
        if str_eq(s, "movie") {
            Some(TitleKind::Movie)
        } else if str_eq(s, "short") {
            Some(TitleKind::Short)
        } else if str_eq(s, "tvEpisode") {
            Some(TitleKind::TvEpisode)
        } else if str_eq(s, "tvMiniSeries") {
            Some(TitleKind::TvMiniSeries)
        } else if str_eq(s, "tvMovie") {
            Some(TitleKind::TvMovie)
        } else if str_eq(s, "tvPilot") {
            Some(TitleKind::TvPilot)
        } else if str_eq(s, "tvSeries") {
            Some(TitleKind::TvSeries)
        } else if str_eq(s, "tvShort") {
            Some(TitleKind::TvShort)
        } else if str_eq(s, "tvSpecial") {
            Some(TitleKind::TvSpecial)
        } else if str_eq(s, "video") {
            Some(TitleKind::Video)
        } else if str_eq(s, "videoGame") {
            Some(TitleKind::VideoGame)
        } else {
            None
        }
    }

    /// Whether text search returns titles of this kind.
    pub fn is_searchable(&self) -> (r: bool)
        ensures
            r == kind_searchable(*self),
    {
        match self {
            TitleKind::Movie | TitleKind::Short | TitleKind::TvMiniSeries | TitleKind::TvMovie
            | TitleKind::TvSeries | TitleKind::VideoGame => true,
            _ => false,
        }
    }
}

} // verus!
