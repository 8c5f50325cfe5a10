//! The sidecar record kept beside each cached file.
use vstd::prelude::*;

use crate::rows::opt_view;

verus! {

/// Download and import state of one cached file. Instants are seconds since
/// the Unix epoch, UTC.
pub struct FileMeta {
    pub path: String,
    pub downloaded_at: Option<i64>,
    pub etag: Option<String>,
    pub last_modified: Option<i64>,
    pub imported_at: Option<i64>,
}

pub struct MetaView {
    pub path: Seq<char>,
    pub downloaded_at: Option<i64>,
    pub etag: Option<Seq<char>>,
    pub last_modified: Option<i64>,
    pub imported_at: Option<i64>,
}

impl View for FileMeta {
    type V = MetaView;

    open spec fn view(&self) -> MetaView {
        MetaView {
            path: self.path@,
            downloaded_at: self.downloaded_at,
            etag: opt_view(self.etag),
            last_modified: self.last_modified,
            imported_at: self.imported_at,
        }
    }
}

impl FileMeta {
    /// A record for a file never seen before: every optional field absent.
    pub fn new(path: String) -> (r: FileMeta)
        ensures
            r@ == (MetaView {
                path: path@,
                downloaded_at: None,
                etag: None,
                last_modified: None,
                imported_at: None,
            }),
    {
        FileMeta { path, downloaded_at: None, etag: None, last_modified: None, imported_at: None }
    }

    /// Whether the file's contents still have to be applied to the store.
    pub fn needs_import(&self) -> (r: bool)
        ensures
            r == (self.imported_at is None),
    {
        self.imported_at.is_none()
    }

    /// Records that the file's contents were fully applied at `now`.
    pub fn mark_imported(&mut self, now: i64)
        ensures
            final(self)@ == (MetaView { imported_at: Some(now), ..old(self)@ }),
    {
        self.imported_at = Some(now);
    }

    /// The sidecar's file name: the cached file's name followed by `.json`.
    pub fn sidecar_path(&self) -> (r: String)
        ensures
            r@ == self.path@ + ".json"@,
    {
        let mut r = self.path.clone();
        r.append(".json");
        r
    }
}

} // verus!
