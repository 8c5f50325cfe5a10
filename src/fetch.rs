//! The decisions of a conditional fetch: which validators to send, and what a
//! response means for the cached file and its sidecar.
use vstd::prelude::*;

use crate::file_meta::{FileMeta, MetaView};
use crate::rows::opt_view;
use crate::text::{parse_u64, u64_of};

verus! {

/// The first instant whose year is 0, and the last whose year is 9999: the
/// range in which RFC 2822 can write a date.
pub const RFC2822_MIN_SECS: i64 = -62167219200;

pub const RFC2822_MAX_SECS: i64 = 253402300799;

/// The RFC 2822 text of an instant given in seconds since the epoch.
pub uninterp spec fn rfc2822_text(secs: i64) -> Seq<char>;

/// The instant that an RFC 2822 date denotes, in seconds since the epoch.
pub uninterp spec fn rfc2822_secs(s: Seq<char>) -> Option<i64>;

/// Relies on chrono's `DateTime::from_timestamp` and `DateTime::to_rfc2822`:
/// the RFC 2822 text of a UTC instant, which chrono writes for years 0 to 9999.
#[verifier::external_body]
fn http_date(secs: i64) -> (r: String)
    requires
        RFC2822_MIN_SECS <= secs <= RFC2822_MAX_SECS,
    ensures
        r@ == rfc2822_text(secs),
{
    match chrono::DateTime::from_timestamp(secs, 0) {
        Some(d) => d.to_rfc2822(),
        None => String::new(),
    }
}

/// Relies on chrono's `DateTime::parse_from_rfc2822` and `DateTime::timestamp`:
/// the instant that an RFC 2822 date denotes, or `None` when chrono rejects it.
#[verifier::external_body]
fn parse_http_date(s: &str) -> (r: Option<i64>)
    ensures
        r == rfc2822_secs(s@),
{
    chrono::DateTime::parse_from_rfc2822(s).ok().map(|d| d.timestamp())
}

/// The validators of a conditional GET.
pub struct ConditionalHeaders {
    pub if_none_match: Option<String>,
    pub if_modified_since: Option<String>,
}

/// What the server answered: its status and the headers the fetch reads, as text.
pub struct FetchResponse {
    pub status: u16,
    pub etag: Option<String>,
    pub last_modified: Option<String>,
    pub content_length: Option<String>,
}

pub struct ResponseView {
    pub status: u16,
    pub etag: Option<Seq<char>>,
    pub last_modified: Option<Seq<char>>,
    pub content_length: Option<Seq<char>>,
}

impl View for FetchResponse {
    type V = ResponseView;

    open spec fn view(&self) -> ResponseView {
        ResponseView {
            status: self.status,
            etag: opt_view(self.etag),
            last_modified: opt_view(self.last_modified),
            content_length: opt_view(self.content_length),
        }
    }
}

/// What to do with the cached file.
#[derive(Clone, Copy, PartialEq, Eq, Debug, Structural)]
pub enum FetchOutcome {
    /// `304`: nothing changes on disk.
    NotModified,
    /// `200` whose length equals the cached file's: keep the file, save the sidecar.
    SameSize,
    /// `200` otherwise: write the body to the file, then save the sidecar.
    Download,
}

#[derive(Clone, Copy, PartialEq, Eq, Debug, Structural)]
pub enum FetchError {
    UnexpectedStatus(u16),
    MalformedLastModified,
    MalformedContentLength,
}

pub open spec fn if_modified_since_of(m: MetaView) -> Option<Seq<char>> {
    match m.last_modified {
        Some(t) => if RFC2822_MIN_SECS <= t <= RFC2822_MAX_SECS {
            Some(rfc2822_text(t))
        } else {
            None
        },
        None => None,
    }
}

/// The `Last-Modified` header of a response, read as a date.
#[derive(Clone, Copy, PartialEq, Eq, Debug, Structural)]
pub enum HeaderDate {
    Absent,
    Malformed,
    At(i64),
}

pub open spec fn header_date_of(r: ResponseView) -> HeaderDate {
    match r.last_modified {
        Some(s) => match rfc2822_secs(s) {
            Some(t) => HeaderDate::At(t),
            None => HeaderDate::Malformed,
        },
        None => HeaderDate::Absent,
    }
}

pub open spec fn date_value(d: HeaderDate) -> Option<i64> {
    match d {
        HeaderDate::At(t) => Some(t),
        _ => None,
    }
}

/// What a response means, given its `Last-Modified` date and the cached
/// file's size (`None`: no file).
pub open spec fn dated_result(r: ResponseView, date: HeaderDate, local_size: Option<u64>) -> Result<
    FetchOutcome,
    FetchError,
> {
    if r.status == 304 {
        Ok(FetchOutcome::NotModified)
    } else if r.status == 200 {
        if date == HeaderDate::Malformed {
            Err(FetchError::MalformedLastModified)
        } else if r.content_length is Some && u64_of(r.content_length->0) is None {
            Err(FetchError::MalformedContentLength)
        } else if local_size is Some && r.content_length is Some && u64_of(r.content_length->0)
            == Some(local_size->0) {
            Ok(FetchOutcome::SameSize)
        } else {
            Ok(FetchOutcome::Download)
        }
    } else {
        Err(FetchError::UnexpectedStatus(r.status))
    }
}

/// The sidecar after a response: on `200` the validators are taken from the
/// response, and a download clears `imported_at`.
pub open spec fn dated_meta_after(
    m: MetaView,
    r: ResponseView,
    date: HeaderDate,
    local_size: Option<u64>,
) -> MetaView {
    match dated_result(r, date, local_size) {
        Ok(FetchOutcome::SameSize) => MetaView { etag: r.etag, last_modified: date_value(date), ..m },
        Ok(FetchOutcome::Download) => MetaView {
            etag: r.etag,
            last_modified: date_value(date),
            imported_at: None,
            ..m
        },
        _ => m,
    }
}

pub open spec fn response_result(r: ResponseView, local_size: Option<u64>) -> Result<
    FetchOutcome,
    FetchError,
> {
    dated_result(r, header_date_of(r), local_size)
}

pub open spec fn meta_after(m: MetaView, r: ResponseView, local_size: Option<u64>) -> MetaView {
    dated_meta_after(m, r, header_date_of(r), local_size)
}

/// The validators to send: the stored entity tag, and the stored
/// last-modified instant as an RFC 2822 date when it can be written as one.
pub fn conditional_headers(meta: &FileMeta) -> (r: ConditionalHeaders)
    ensures
        opt_view(r.if_none_match) == meta@.etag,
        opt_view(r.if_modified_since) == if_modified_since_of(meta@),
{
    let if_none_match = match &meta.etag {
        Some(e) => Some(e.clone()),
        None => None,
    };
    let if_modified_since = match meta.last_modified {
        Some(t) => if RFC2822_MIN_SECS <= t && t <= RFC2822_MAX_SECS {
            Some(http_date(t))
        } else {
            None
        },
        None => None,
    };
    ConditionalHeaders { if_none_match, if_modified_since }
}

/// Applies a response whose `Last-Modified` header was read as `date` to the
/// sidecar record, and says what to do with the file.
pub fn apply_dated_response(
    meta: &mut FileMeta,
    resp: &FetchResponse,
    date: HeaderDate,
    local_size: Option<u64>,
) -> (r: Result<FetchOutcome, FetchError>)
    ensures
        r == dated_result(resp@, date, local_size),
        final(meta)@ == dated_meta_after(old(meta)@, resp@, date, local_size),
{
    if resp.status == 304 {
        return Ok(FetchOutcome::NotModified);
    }
    if resp.status != 200 {
        return Err(FetchError::UnexpectedStatus(resp.status));
    }
    let last_modified = match date {
        HeaderDate::Malformed => return Err(FetchError::MalformedLastModified),
        HeaderDate::At(t) => Some(t),
        HeaderDate::Absent => None,
    };
    let content_length = match &resp.content_length {
        Some(s) => match parse_u64(s.as_str()) {
            Some(n) => Some(n),
            None => return Err(FetchError::MalformedContentLength),
        },
        None => None,
    };
    meta.etag = match &resp.etag {
        Some(e) => Some(e.clone()),
        None => None,
    };
    meta.last_modified = last_modified;
    let same_size = match (local_size, content_length) {
        (Some(a), Some(b)) => a == b,
        _ => false,
    };
    if same_size {
        Ok(FetchOutcome::SameSize)
    } else {
        meta.imported_at = None;
        Ok(FetchOutcome::Download)
    }
}

/// Reads the `Last-Modified` header of a response.
pub fn header_date(resp: &FetchResponse) -> (r: HeaderDate)
    ensures
        r == header_date_of(resp@),
{
    match &resp.last_modified {
        Some(s) => match parse_http_date(s.as_str()) {
            Some(t) => HeaderDate::At(t),
            None => HeaderDate::Malformed,
        },
        None => HeaderDate::Absent,
    }
}

/// Applies a response to the sidecar record and says what to do with the file.
pub fn apply_response(meta: &mut FileMeta, resp: &FetchResponse, local_size: Option<u64>) -> (r:
    Result<FetchOutcome, FetchError>)
    ensures
        r == response_result(resp@, local_size),
        final(meta)@ == meta_after(old(meta)@, resp@, local_size),
{
    let date = header_date(resp);
    apply_dated_response(meta, resp, date, local_size)
}

/// On a URL whose content does not change, two fetches in a row download the
/// file at most once: after a `200` that announced its length, a second fetch
/// answered either `304` or by the same `200` keeps the file.
pub proof fn lemma_fetch_downloads_once(
    m: MetaView,
    first: ResponseView,
    second: ResponseView,
    local_size: Option<u64>,
    n: u64,
)
    requires
        first.status == 200,
        first.content_length is Some,
        u64_of(first.content_length->0) == Some(n),
        second.status == 304 || second == first,
    ensures
        response_result(second, Some(n)) != Ok::<FetchOutcome, FetchError>(FetchOutcome::Download),
        meta_after(meta_after(m, first, local_size), second, Some(n)).imported_at == meta_after(
            m,
            first,
            local_size,
        ).imported_at,
{
}

} // verus!
