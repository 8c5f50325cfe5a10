//! The search documents built from the store: one per `(text, title)` pair,
//! where a primary title wins over an alternate title of the same text, and
//! among alternate titles the smallest `ordering` wins.
use vstd::prelude::*;

use crate::text::str_eq;

verus! {

/// What the builder reads of a title.
pub struct TitleText {
    pub id: u32,
    pub primary_title: String,
    pub original_title: Option<String>,
}

/// What the builder reads of an alternate title.
pub struct AkaText {
    pub title_id: u32,
    pub ordering: i32,
    pub title: String,
}

/// A search document. `is_display` holds when `text` is the title's primary
/// or original title.
pub struct SearchDoc {
    pub title_id: u32,
    pub ordering: i32,
    pub text: String,
    pub is_display: bool,
}

pub struct TitleTextView {
    pub id: u32,
    pub primary_title: Seq<char>,
    pub original_title: Option<Seq<char>>,
}

pub struct AkaTextView {
    pub title_id: u32,
    pub ordering: i32,
    pub title: Seq<char>,
}

pub struct DocView {
    pub title_id: u32,
    pub ordering: i32,
    pub text: Seq<char>,
    pub is_display: bool,
}

impl View for TitleText {
    type V = TitleTextView;

    open spec fn view(&self) -> TitleTextView {
        TitleTextView {
            id: self.id,
            primary_title: self.primary_title@,
            original_title: match self.original_title {
                Some(s) => Some(s@),
                None => None,
            },
        }
    }
}

impl View for AkaText {
    type V = AkaTextView;

    open spec fn view(&self) -> AkaTextView {
        AkaTextView { title_id: self.title_id, ordering: self.ordering, title: self.title@ }
    }
}

impl View for SearchDoc {
    type V = DocView;

    open spec fn view(&self) -> DocView {
        DocView {
            title_id: self.title_id,
            ordering: self.ordering,
            text: self.text@,
            is_display: self.is_display,
        }
    }
}

pub open spec fn titles_view(v: Seq<TitleText>) -> Seq<TitleTextView> {
    v.map_values(|t: TitleText| t@)
}

pub open spec fn akas_view(v: Seq<AkaText>) -> Seq<AkaTextView> {
    v.map_values(|a: AkaText| a@)
}

pub open spec fn docs_view(v: Seq<SearchDoc>) -> Seq<DocView> {
    v.map_values(|d: SearchDoc| d@)
}

/// `text` is the nonempty primary title of a title `id`.
pub open spec fn primary_match(t: Seq<TitleTextView>, text: Seq<char>, id: u32) -> bool {
    text.len() > 0 && exists|i: int|
        0 <= i < t.len() && #[trigger] t[i].id == id && t[i].primary_title == text
}

/// `text` is a nonempty alternate title of `id` under `ordering`.
pub open spec fn aka_match(a: Seq<AkaTextView>, text: Seq<char>, id: u32, ordering: i32) -> bool {
    text.len() > 0 && exists|j: int|
        0 <= j < a.len() && #[trigger] a[j] == (AkaTextView { title_id: id, ordering, title: text })
}

/// `text` is the primary or the original title of a title `id`.
pub open spec fn display_of(t: Seq<TitleTextView>, text: Seq<char>, id: u32) -> bool {
    exists|i: int|
        0 <= i < t.len() && #[trigger] t[i].id == id && (t[i].primary_title == text
            || t[i].original_title == Some(text))
}

/// A document is the winning source row of its pair: the primary title if
/// there is one (ordering 0), else the alternate title with the smallest ordering.
pub open spec fn doc_ok(t: Seq<TitleTextView>, a: Seq<AkaTextView>, d: Seq<TitleTextView>, doc: DocView) -> bool {
    &&& if primary_match(t, doc.text, doc.title_id) {
        doc.ordering == 0
    } else {
        &&& aka_match(a, doc.text, doc.title_id, doc.ordering)
        &&& forall|o: i32| #[trigger] aka_match(a, doc.text, doc.title_id, o) ==> doc.ordering <= o
    }
    &&& doc.is_display == display_of(d, doc.text, doc.title_id)
}

pub open spec fn has_pair(docs: Seq<DocView>, text: Seq<char>, id: u32) -> bool {
    exists|k: int| 0 <= k < docs.len() && #[trigger] docs[k].text == text && docs[k].title_id == id
}

/// No two documents share `(text, title_id)`.
pub open spec fn pairs_unique(docs: Seq<DocView>) -> bool {
    forall|k1: int, k2: int|
        0 <= k1 < docs.len() && 0 <= k2 < docs.len() && k1 != k2 && #[trigger] docs[k1].text
            == #[trigger] docs[k2].text ==> docs[k1].title_id != docs[k2].title_id
}

pub open spec fn docs_inv(t: Seq<TitleTextView>, a: Seq<AkaTextView>, d: Seq<TitleTextView>, docs: Seq<DocView>) -> bool {
    &&& forall|k: int| 0 <= k < docs.len() ==> doc_ok(t, a, d, #[trigger] docs[k])
    &&& pairs_unique(docs)
    &&& forall|text: Seq<char>, id: u32| #[trigger] primary_match(t, text, id) ==> has_pair(docs, text, id)
    &&& forall|text: Seq<char>, id: u32, o: i32| #[trigger] aka_match(a, text, id, o) ==> has_pair(docs, text, id)
}

/// The documents are exactly the winning rows of every `(text, title)` pair
/// that a title or an alternate title yields.
pub open spec fn search_docs_ok(t: Seq<TitleTextView>, a: Seq<AkaTextView>, docs: Seq<DocView>) -> bool {
    docs_inv(t, a, t, docs)
}

proof fn lemma_primary_match_push(t: Seq<TitleTextView>, x: TitleTextView, text: Seq<char>, id: u32)
    ensures
        primary_match(t.push(x), text, id) == (primary_match(t, text, id) || (text.len() > 0
            && x.id == id && x.primary_title == text)),
{
    let u = t.push(x);
    if primary_match(u, text, id) {
        let i = choose|i: int| 0 <= i < u.len() && #[trigger] u[i].id == id && u[i].primary_title == text;
        if i < t.len() {
            assert(t[i] == u[i]);
        }
    }
    if primary_match(t, text, id) {
        let i = choose|i: int| 0 <= i < t.len() && #[trigger] t[i].id == id && t[i].primary_title == text;
        assert(u[i] == t[i]);
    }
    if text.len() > 0 && x.id == id && x.primary_title == text {
        assert(u[t.len() as int] == x);
    }
}

proof fn lemma_aka_match_push(a: Seq<AkaTextView>, x: AkaTextView, text: Seq<char>, id: u32, o: i32)
    ensures
        aka_match(a.push(x), text, id, o) == (aka_match(a, text, id, o) || (text.len() > 0
            && x == (AkaTextView { title_id: id, ordering: o, title: text }))),
{
    let u = a.push(x);
    let v = AkaTextView { title_id: id, ordering: o, title: text };
    if aka_match(u, text, id, o) {
        let j = choose|j: int| 0 <= j < u.len() && #[trigger] u[j] == v;
        if j < a.len() {
            assert(a[j] == u[j]);
        }
    }
    if aka_match(a, text, id, o) {
        let j = choose|j: int| 0 <= j < a.len() && #[trigger] a[j] == v;
        assert(u[j] == a[j]);
    }
    if text.len() > 0 && x == v {
        assert(u[a.len() as int] == x);
    }
}

/// The index of the document for `(text, id)`, if there is one.
fn find_doc(docs: &Vec<SearchDoc>, text: &str, id: u32) -> (r: Option<usize>)
    ensures
        r matches Some(k) ==> k < docs.len() && docs@[k as int]@.text == text@ && docs@[k as int].title_id == id,
        r is None ==> !has_pair(docs_view(docs@), text@, id),
{
    let mut k: usize = 0;
    while k < docs.len()
        invariant
            0 <= k <= docs.len(),
            forall|m: int| 0 <= m < k ==> !(docs@[m]@.text == text@ && docs@[m].title_id == id),
        decreases docs.len() - k,
    {
        if docs[k].title_id == id && str_eq(docs[k].text.as_str(), text) {
            return Some(k);
        }
        k = k + 1;
    }
    let ghost dv = docs_view(docs@);
    assert forall|m: int| 0 <= m < dv.len() implies !(#[trigger] dv[m].text == text@ && dv[m].title_id == id) by {
        assert(dv[m] == docs@[m]@);
    }
    None
}

/// Whether `text` is the primary or original title of a title `id`.
fn is_display_text(titles: &Vec<TitleText>, text: &str, id: u32) -> (r: bool)
    ensures
        r == display_of(titles_view(titles@), text@, id),
{
    let ghost tv = titles_view(titles@);
    let mut i: usize = 0;
    while i < titles.len()
        invariant
            0 <= i <= titles.len(),
            tv == titles_view(titles@),
            forall|m: int| 0 <= m < i ==> !(#[trigger] tv[m].id == id && (tv[m].primary_title == text@
                || tv[m].original_title == Some(text@))),
        decreases titles.len() - i,
    {
        let t = &titles[i];
        assert(tv[i as int] == t@);
        if t.id == id {
            if str_eq(t.primary_title.as_str(), text) {
                assert(tv[i as int].id == id && tv[i as int].primary_title == text@);
                return true;
            }
            match &t.original_title {
                Some(o) => {
                    if str_eq(o.as_str(), text) {
                        assert(tv[i as int].id == id && tv[i as int].original_title == Some(text@));
                        return true;
                    }
                },
                None => {},
            }
        }
        i = i + 1;
    }
    false
}

/// Whether `text` is the nonempty primary title of a title `id`.
fn is_primary_text(titles: &Vec<TitleText>, text: &str, id: u32) -> (r: bool)
    ensures
        r == primary_match(titles_view(titles@), text@, id),
{
    if text.unicode_len() == 0 {
        return false;
    }
    let ghost tv = titles_view(titles@);
    let mut i: usize = 0;
    while i < titles.len()
        invariant
            0 <= i <= titles.len(),
            tv == titles_view(titles@),
            text@.len() > 0,
            forall|m: int| 0 <= m < i ==> !(#[trigger] tv[m].id == id && tv[m].primary_title == text@),
        decreases titles.len() - i,
    {
        let t = &titles[i];
        assert(tv[i as int] == t@);
        if t.id == id && str_eq(t.primary_title.as_str(), text) {
            assert(tv[i as int].id == id && tv[i as int].primary_title == text@);
            return true;
        }
        i = i + 1;
    }
    false
}

proof fn lemma_has_pair_push(docs: Seq<DocView>, doc: DocView, text: Seq<char>, id: u32)
    requires
        has_pair(docs, text, id) || (doc.text == text && doc.title_id == id),
    ensures
        has_pair(docs.push(doc), text, id),
{
    let u = docs.push(doc);
    if has_pair(docs, text, id) {
        let k = choose|k: int| 0 <= k < docs.len() && #[trigger] docs[k].text == text && docs[k].title_id == id;
        assert(u[k] == docs[k]);
        assert(u[k].text == text && u[k].title_id == id);
    } else {
        assert(u[docs.len() as int] == doc);
        assert(u[docs.len() as int].text == text && u[docs.len() as int].title_id == id);
    }
}

/// A title whose primary text is empty, or already has its document.
proof fn lemma_title_step_kept(pt: Seq<TitleTextView>, x: TitleTextView, d: Seq<TitleTextView>, docs: Seq<DocView>)
    requires
        docs_inv(pt, Seq::empty(), d, docs),
        x.primary_title.len() == 0 || has_pair(docs, x.primary_title, x.id),
    ensures
        docs_inv(pt.push(x), Seq::empty(), d, docs),
{
    let e = Seq::<AkaTextView>::empty();
    let pt2 = pt.push(x);
    assert forall|k: int| 0 <= k < docs.len() implies doc_ok(pt2, e, d, #[trigger] docs[k]) by {
        let doc = docs[k];
        lemma_primary_match_push(pt, x, doc.text, doc.title_id);
    }
    assert forall|text: Seq<char>, id: u32| #[trigger] primary_match(pt2, text, id) implies has_pair(docs, text, id) by {
        lemma_primary_match_push(pt, x, text, id);
    }
}

/// A title whose primary text has no document yet gets one.
proof fn lemma_title_step_new(pt: Seq<TitleTextView>, x: TitleTextView, d: Seq<TitleTextView>, docs: Seq<DocView>, doc: DocView)
    requires
        docs_inv(pt, Seq::empty(), d, docs),
        x.primary_title.len() > 0,
        !has_pair(docs, x.primary_title, x.id),
        doc == (DocView {
            title_id: x.id,
            ordering: 0,
            text: x.primary_title,
            is_display: display_of(d, x.primary_title, x.id),
        }),
    ensures
        docs_inv(pt.push(x), Seq::empty(), d, docs.push(doc)),
{
    let e = Seq::<AkaTextView>::empty();
    let pt2 = pt.push(x);
    let docs2 = docs.push(doc);
    assert forall|k: int| 0 <= k < docs2.len() implies doc_ok(pt2, e, d, #[trigger] docs2[k]) by {
        let dk = docs2[k];
        lemma_primary_match_push(pt, x, dk.text, dk.title_id);
        if k < docs.len() {
            assert(dk == docs[k]);
        }
    }
    assert forall|k1: int, k2: int|
        0 <= k1 < docs2.len() && 0 <= k2 < docs2.len() && k1 != k2 && #[trigger] docs2[k1].text
            == #[trigger] docs2[k2].text implies docs2[k1].title_id != docs2[k2].title_id by {
        if k1 < docs.len() && k2 < docs.len() {
            assert(docs2[k1] == docs[k1] && docs2[k2] == docs[k2]);
        } else if k1 < docs.len() {
            assert(docs2[k1] == docs[k1]);
            assert(!(docs[k1].text == x.primary_title && docs[k1].title_id == x.id));
        } else {
            assert(docs2[k2] == docs[k2]);
            assert(!(docs[k2].text == x.primary_title && docs[k2].title_id == x.id));
        }
    }
    assert forall|text: Seq<char>, id: u32| #[trigger] primary_match(pt2, text, id) implies has_pair(docs2, text, id) by {
        lemma_primary_match_push(pt, x, text, id);
        lemma_has_pair_push(docs, doc, text, id);
    }
}

/// An alternate title that changes no document: its text is empty, or its
/// pair already has a document that wins over it.
proof fn lemma_aka_step_kept(t: Seq<TitleTextView>, a: Seq<AkaTextView>, x: AkaTextView, docs: Seq<DocView>, k: int)
    requires
        docs_inv(t, a, t, docs),
        x.title.len() == 0 || (0 <= k < docs.len() && docs[k].text == x.title && docs[k].title_id
            == x.title_id && (primary_match(t, x.title, x.title_id) || docs[k].ordering
            <= x.ordering)),
    ensures
        docs_inv(t, a.push(x), t, docs),
{
    let a2 = a.push(x);
    assert forall|m: int| 0 <= m < docs.len() implies doc_ok(t, a2, t, #[trigger] docs[m]) by {
        let dm = docs[m];
        lemma_aka_match_push(a, x, dm.text, dm.title_id, dm.ordering);
        if !primary_match(t, dm.text, dm.title_id) {
            assert forall|o: i32| #[trigger] aka_match(a2, dm.text, dm.title_id, o) implies dm.ordering <= o by {
                lemma_aka_match_push(a, x, dm.text, dm.title_id, o);
                if !aka_match(a, dm.text, dm.title_id, o) {
                    // the new row is this document's pair, so `m` is `k`
                    if m != k {
                        assert(docs[m].text == docs[k].text);
                    }
                }
            }
        }
    }
    assert forall|text: Seq<char>, id: u32, o: i32| #[trigger] aka_match(a2, text, id, o) implies has_pair(docs, text, id) by {
        lemma_aka_match_push(a, x, text, id, o);
        if !aka_match(a, text, id, o) {
            assert(docs[k].text == text && docs[k].title_id == id);
        }
    }
}

/// An alternate title with a smaller ordering than its pair's document, which
/// comes from alternate titles only, takes that document's place.
proof fn lemma_aka_step_lower(t: Seq<TitleTextView>, a: Seq<AkaTextView>, x: AkaTextView, docs: Seq<DocView>, k: int)
    requires
        docs_inv(t, a, t, docs),
        x.title.len() > 0,
        0 <= k < docs.len(),
        docs[k].text == x.title,
        docs[k].title_id == x.title_id,
        !primary_match(t, x.title, x.title_id),
        x.ordering < docs[k].ordering,
    ensures
        docs_inv(t, a.push(x), t, docs.update(k, DocView { ordering: x.ordering, ..docs[k] })),
{
    let a2 = a.push(x);
    let docs2 = docs.update(k, DocView { ordering: x.ordering, ..docs[k] });
    assert forall|m: int| 0 <= m < docs2.len() implies doc_ok(t, a2, t, #[trigger] docs2[m]) by {
        let dm = docs2[m];
        lemma_aka_match_push(a, x, dm.text, dm.title_id, dm.ordering);
        if m == k {
            assert forall|o: i32| #[trigger] aka_match(a2, dm.text, dm.title_id, o) implies dm.ordering <= o by {
                lemma_aka_match_push(a, x, dm.text, dm.title_id, o);
                if aka_match(a, dm.text, dm.title_id, o) {
                    assert(doc_ok(t, a, t, docs[k]));
                }
            }
        } else {
            assert(dm == docs[m]);
            if !primary_match(t, dm.text, dm.title_id) {
                assert forall|o: i32| #[trigger] aka_match(a2, dm.text, dm.title_id, o) implies dm.ordering <= o by {
                    lemma_aka_match_push(a, x, dm.text, dm.title_id, o);
                    if !aka_match(a, dm.text, dm.title_id, o) {
                        assert(docs[m].text == docs[k].text);
                    }
                }
            }
        }
    }
    assert forall|k1: int, k2: int|
        0 <= k1 < docs2.len() && 0 <= k2 < docs2.len() && k1 != k2 && #[trigger] docs2[k1].text
            == #[trigger] docs2[k2].text implies docs2[k1].title_id != docs2[k2].title_id by {
        assert(docs[k1].text == docs2[k1].text && docs[k1].title_id == docs2[k1].title_id);
        assert(docs[k2].text == docs2[k2].text && docs[k2].title_id == docs2[k2].title_id);
    }
    assert forall|text: Seq<char>, id: u32| #[trigger] primary_match(t, text, id) implies has_pair(docs2, text, id) by {
        let j = choose|j: int| 0 <= j < docs.len() && #[trigger] docs[j].text == text && docs[j].title_id == id;
        assert(docs2[j].text == text && docs2[j].title_id == id);
    }
    assert forall|text: Seq<char>, id: u32, o: i32| #[trigger] aka_match(a2, text, id, o) implies has_pair(docs2, text, id) by {
        lemma_aka_match_push(a, x, text, id, o);
        if aka_match(a, text, id, o) {
            let j = choose|j: int| 0 <= j < docs.len() && #[trigger] docs[j].text == text && docs[j].title_id == id;
            assert(docs2[j].text == text && docs2[j].title_id == id);
        } else {
            assert(docs2[k].text == text && docs2[k].title_id == id);
        }
    }
}

/// An alternate title whose pair has no document yet gets one.
proof fn lemma_aka_step_new(t: Seq<TitleTextView>, a: Seq<AkaTextView>, x: AkaTextView, docs: Seq<DocView>, doc: DocView)
    requires
        docs_inv(t, a, t, docs),
        x.title.len() > 0,
        !has_pair(docs, x.title, x.title_id),
        doc == (DocView {
            title_id: x.title_id,
            ordering: x.ordering,
            text: x.title,
            is_display: display_of(t, x.title, x.title_id),
        }),
    ensures
        docs_inv(t, a.push(x), t, docs.push(doc)),
{
    let a2 = a.push(x);
    let docs2 = docs.push(doc);
    assert(!primary_match(t, x.title, x.title_id));
    assert forall|m: int| 0 <= m < docs2.len() implies doc_ok(t, a2, t, #[trigger] docs2[m]) by {
        let dm = docs2[m];
        lemma_aka_match_push(a, x, dm.text, dm.title_id, dm.ordering);
        if m < docs.len() {
            assert(dm == docs[m]);
            if !primary_match(t, dm.text, dm.title_id) {
                assert forall|o: i32| #[trigger] aka_match(a2, dm.text, dm.title_id, o) implies dm.ordering <= o by {
                    lemma_aka_match_push(a, x, dm.text, dm.title_id, o);
                    if !aka_match(a, dm.text, dm.title_id, o) {
                        assert(!(docs[m].text == x.title && docs[m].title_id == x.title_id));
                    }
                }
            }
        } else {
            assert(dm == doc);
            assert forall|o: i32| #[trigger] aka_match(a2, dm.text, dm.title_id, o) implies dm.ordering <= o by {
                lemma_aka_match_push(a, x, dm.text, dm.title_id, o);
            }
        }
    }
    assert forall|k1: int, k2: int|
        0 <= k1 < docs2.len() && 0 <= k2 < docs2.len() && k1 != k2 && #[trigger] docs2[k1].text
            == #[trigger] docs2[k2].text implies docs2[k1].title_id != docs2[k2].title_id by {
        if k1 < docs.len() && k2 < docs.len() {
            assert(docs2[k1] == docs[k1] && docs2[k2] == docs[k2]);
        } else if k1 < docs.len() {
            assert(docs2[k1] == docs[k1]);
            assert(!(docs[k1].text == x.title && docs[k1].title_id == x.title_id));
        } else {
            assert(docs2[k2] == docs[k2]);
            assert(!(docs[k2].text == x.title && docs[k2].title_id == x.title_id));
        }
    }
    assert forall|text: Seq<char>, id: u32| #[trigger] primary_match(t, text, id) implies has_pair(docs2, text, id) by {
        lemma_has_pair_push(docs, doc, text, id);
    }
    assert forall|text: Seq<char>, id: u32, o: i32| #[trigger] aka_match(a2, text, id, o) implies has_pair(docs2, text, id) by {
        lemma_aka_match_push(a, x, text, id, o);
        lemma_has_pair_push(docs, doc, text, id);
    }
}

/// Builds the search documents of the given titles and alternate titles.
pub fn build_search_docs(titles: &Vec<TitleText>, akas: &Vec<AkaText>) -> (r: Vec<SearchDoc>)
    ensures
        search_docs_ok(titles_view(titles@), akas_view(akas@), docs_view(r@)),
{
    let ghost tv = titles_view(titles@);
    let ghost av = akas_view(akas@);
    let ghost e = Seq::<AkaTextView>::empty();
    let mut out: Vec<SearchDoc> = Vec::new();
    let mut i: usize = 0;
    assert(tv.take(0) =~= Seq::<TitleTextView>::empty());
    assert(docs_view(out@) =~= Seq::<DocView>::empty());
    while i < titles.len()
        invariant
            0 <= i <= titles.len(),
            tv == titles_view(titles@),
            e == Seq::<AkaTextView>::empty(),
            docs_inv(tv.take(i as int), e, tv, docs_view(out@)),
        decreases titles.len() - i,
    {
        let t = &titles[i];
        assert(tv.take(i as int + 1) =~= tv.take(i as int).push(t@));
        let text = t.primary_title.as_str();
        if text.unicode_len() == 0 {
            proof {
                lemma_title_step_kept(tv.take(i as int), t@, tv, docs_view(out@));
            }
        } else {
            match find_doc(&out, text, t.id) {
                Some(k) => {
                    proof {
                        let dv = docs_view(out@);
                        assert(dv[k as int].text == text@ && dv[k as int].title_id == t.id);
                        lemma_title_step_kept(tv.take(i as int), t@, tv, dv);
                    }
                },
                None => {
                    let is_display = is_display_text(titles, text, t.id);
                    let doc = SearchDoc { title_id: t.id, ordering: 0, text: t.primary_title.clone(), is_display };
                    proof {
                        lemma_title_step_new(tv.take(i as int), t@, tv, docs_view(out@), doc@);
                    }
                    let ghost before = docs_view(out@);
                    out.push(doc);
                    assert(docs_view(out@) =~= before.push(doc@));
                },
            }
        }
        i = i + 1;
    }
    assert(tv.take(titles.len() as int) =~= tv);
    let mut j: usize = 0;
    assert(av.take(0) =~= e);
    while j < akas.len()
        invariant
            0 <= j <= akas.len(),
            tv == titles_view(titles@),
            av == akas_view(akas@),
            e == Seq::<AkaTextView>::empty(),
            docs_inv(tv, av.take(j as int), tv, docs_view(out@)),
        decreases akas.len() - j,
    {
        let x = &akas[j];
        assert(av.take(j as int + 1) =~= av.take(j as int).push(x@));
        let text = x.title.as_str();
        if text.unicode_len() == 0 {
            proof {
                lemma_aka_step_kept(tv, av.take(j as int), x@, docs_view(out@), 0);
            }
        } else {
            match find_doc(&out, text, x.title_id) {
                Some(k) => {
                    let ghost dv = docs_view(out@);
                    assert(dv[k as int].text == text@ && dv[k as int].title_id == x.title_id);
                    if is_primary_text(titles, text, x.title_id) || out[k].ordering <= x.ordering {
                        proof {
                            lemma_aka_step_kept(tv, av.take(j as int), x@, dv, k as int);
                        }
                    } else {
                        proof {
                            lemma_aka_step_lower(tv, av.take(j as int), x@, dv, k as int);
                        }
                        let ordering = x.ordering;
                        out[k].ordering = ordering;
                        assert(docs_view(out@) =~= dv.update(k as int, DocView { ordering: x.ordering, ..dv[k as int] }));
                    }
                },
                None => {
                    let is_display = is_display_text(titles, text, x.title_id);
                    let doc = SearchDoc { title_id: x.title_id, ordering: x.ordering, text: x.title.clone(), is_display };
                    proof {
                        lemma_aka_step_new(tv, av.take(j as int), x@, docs_view(out@), doc@);
                    }
                    let ghost before = docs_view(out@);
                    out.push(doc);
                    assert(docs_view(out@) =~= before.push(doc@));
                },
            }
        }
        j = j + 1;
    }
    assert(av.take(akas.len() as int) =~= av);
    out
}

/// Every title with a nonempty primary title has exactly one document with its
/// id and that text, and that document is a display document.
pub proof fn lemma_one_display_doc_per_title(
    t: Seq<TitleTextView>,
    a: Seq<AkaTextView>,
    docs: Seq<DocView>,
    i: int,
)
    requires
        search_docs_ok(t, a, docs),
        0 <= i < t.len(),
        t[i].primary_title.len() > 0,
    ensures
        exists|k: int|
            0 <= k < docs.len() && #[trigger] docs[k].title_id == t[i].id && docs[k].text
                == t[i].primary_title && docs[k].is_display,
        forall|k1: int, k2: int|
            0 <= k1 < docs.len() && 0 <= k2 < docs.len() && #[trigger] docs[k1].title_id
                == t[i].id && docs[k1].text == t[i].primary_title && #[trigger] docs[k2].title_id
                == t[i].id && docs[k2].text == t[i].primary_title ==> k1 == k2,
{
    let text = t[i].primary_title;
    let id = t[i].id;
    assert(t[i].id == id && t[i].primary_title == text);
    assert(primary_match(t, text, id));
    let k = choose|k: int| 0 <= k < docs.len() && #[trigger] docs[k].text == text && docs[k].title_id == id;
    assert(doc_ok(t, a, t, docs[k]));
    assert(display_of(t, text, id));
    assert(docs[k].title_id == id);
}

/// No two search documents share `(text, title_id)`.
pub proof fn lemma_search_pairs_unique(t: Seq<TitleTextView>, a: Seq<AkaTextView>, docs: Seq<DocView>)
    requires
        search_docs_ok(t, a, docs),
    ensures
        forall|k1: int, k2: int|
            0 <= k1 < docs.len() && 0 <= k2 < docs.len() && k1 != k2 ==> !(#[trigger] docs[k1].text
                == #[trigger] docs[k2].text && docs[k1].title_id == docs[k2].title_id),
{
}

} // verus!
