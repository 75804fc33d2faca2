use vstd::prelude::*;

use crate::guard::{
    contains_parent_token, guarded_id, has_mp3_suffix, has_parent_token, is_mp3_name, percent_decoded,
    url_decode,
};
use crate::html::{render_index, render_stream_index, index_html, STREAM_PAGE};
use crate::track::{
    entry_id, entry_id_exec, entry_track, is_track_entry, lemma_scan_members, scan, track_views, DirEntryInfo, Track,
};

verus! {

pub const STATUS_OK: u16 = 200;

pub const STATUS_FOUND: u16 = 302;

pub const STATUS_BAD_REQUEST: u16 = 400;

pub const STATUS_NOT_FOUND: u16 = 404;

pub const STATUS_INTERNAL_ERROR: u16 = 500;

pub const HTML_TYPE: &'static str = "text/html; charset=utf-8";

/// Content type of a streamed track.
pub const AUDIO_TYPE: &'static str = "audio/mpeg";

pub const MISSING_NAME_TEXT: &'static str = "ファイルが見つかりません";

pub const SAVE_FAILED_TEXT: &'static str = "ファイルの保存に失敗しました: ";

pub const INVALID_NAME_TEXT: &'static str = "無効なファイル名です";

pub const NOT_FOUND_TEXT: &'static str = "指定されたファイルが見つかりませんでした";

pub const DELETE_FAILED_TEXT: &'static str = "ファイルの削除に失敗しました";

/// An HTTP reply with a text body.
#[derive(Debug)]
pub struct Reply {
    pub status: u16,
    pub content_type: Option<String>,
    pub location: Option<String>,
    pub body: String,
}

/// The mathematical value of a [`Reply`].
pub struct ReplyView {
    pub status: u16,
    pub content_type: Option<Seq<char>>,
    pub location: Option<Seq<char>>,
    pub body: Seq<char>,
}

impl View for Reply {
    type V = ReplyView;

    open spec fn view(&self) -> ReplyView {
        ReplyView {
            status: self.status,
            content_type: self.content_type.deep_view(),
            location: self.location.deep_view(),
            body: self.body@,
        }
    }
}

/// A reply with status `status` and the text body `body`.
pub open spec fn text_reply(status: u16, body: Seq<char>) -> ReplyView {
    ReplyView { status, content_type: None, location: None, body }
}

/// The redirect to the library page that ends a successful form post.
pub open spec fn redirect_home() -> ReplyView {
    ReplyView { status: STATUS_FOUND, content_type: None, location: Some("/"@), body: Seq::empty() }
}

/// An HTML page with status 200.
pub open spec fn html_reply(page: Seq<char>) -> ReplyView {
    ReplyView { status: STATUS_OK, content_type: Some(HTML_TYPE@), location: None, body: page }
}

fn text(status: u16, body: &str) -> (r: Reply)
    ensures
        r@ == text_reply(status, body@),
{
    Reply { status, content_type: None, location: None, body: String::from_str(body) }
}

/// The redirect to `/` that answers a successful upload or delete.
pub fn redirect_to_index() -> (r: Reply)
    ensures
        r@ == redirect_home(),
{
    Reply {
        status: STATUS_FOUND,
        content_type: None,
        location: Some(String::from_str("/")),
        body: String::new(),
    }
}

/// The library page of the network listener.
pub fn index_reply(tracks: &Vec<Track>) -> (r: Reply)
    ensures
        r@ == html_reply(index_html(track_views(tracks@))),
{
    Reply {
        status: STATUS_OK,
        content_type: Some(String::from_str(HTML_TYPE)),
        location: None,
        body: render_index(tracks),
    }
}

/// The root page of the loopback listener.
pub fn stream_index_reply() -> (r: Reply)
    ensures
        r@ == html_reply(STREAM_PAGE@),
{
    Reply {
        status: STATUS_OK,
        content_type: Some(String::from_str(HTML_TYPE)),
        location: None,
        body: render_stream_index(),
    }
}

/// True when `s` holds a path separator.
pub open spec fn has_separator(s: Seq<char>) -> bool {
    s.contains('/') || s.contains('\\')
}

/// An uploaded file is kept when its name ends in `.mp3` or `.MP3` and names
/// a file directly inside the library directory.
pub open spec fn upload_accepted(name: Seq<char>) -> bool {
    has_mp3_suffix(name) && !has_parent_token(name) && !has_separator(name)
}

fn contains_separator(s: &str) -> (r: bool)
    ensures
        r == has_separator(s@),
{
    let n = s.unicode_len();
    let mut i: usize = 0;
    while i < n
        invariant
            n == s@.len(),
            i <= n,
            forall|j: int| 0 <= j < i ==> s@[j] != '/' && s@[j] != '\\',
        decreases n - i,
    {
        let c = s.get_char(i);
        if c == '/' || c == '\\' {
            assert(s@[i as int] == c);
            return true;
        }
        i = i + 1;
    }
    false
}

/// What the upload handler does with one part of the form.
pub enum PartAction {
    /// The part carries no file name: the request fails.
    MissingName,
    /// The part is not an MP3 file the library can hold: it is passed over.
    Skip,
    /// The part is written to the library under this name.
    Save(String),
}

/// Decides what to do with one uploaded part from its file name.
pub fn upload_part_action(file_name: Option<String>) -> (r: PartAction)
    ensures
        file_name is None ==> r is MissingName,
        file_name matches Some(n) ==> if upload_accepted(n@) {
            r matches PartAction::Save(t) && t@ == n@
        } else {
            r is Skip
        },
{
    match file_name {
        None => PartAction::MissingName,
        Some(n) => {
            if is_mp3_name(n.as_str()) && !contains_parent_token(n.as_str())
                && !contains_separator(n.as_str()) {
                PartAction::Save(n)
            } else {
                PartAction::Skip
            }
        },
    }
}

/// The reply to an upload part without a file name.
pub fn missing_name_reply() -> (r: Reply)
    ensures
        r@ == text_reply(STATUS_INTERNAL_ERROR, MISSING_NAME_TEXT@),
{
    text(STATUS_INTERNAL_ERROR, MISSING_NAME_TEXT)
}

/// The reply when writing an uploaded file failed with the message `err`.
pub fn save_failed_reply(err: &str) -> (r: Reply)
    ensures
        r@ == text_reply(STATUS_INTERNAL_ERROR, SAVE_FAILED_TEXT@ + err@),
{
    let mut body = String::from_str(SAVE_FAILED_TEXT);
    body.append(err);
    Reply { status: STATUS_INTERNAL_ERROR, content_type: None, location: None, body }
}

/// What the delete handler does for a form.
#[derive(Debug, PartialEq, Eq, Structural)]
pub enum DeletePlan {
    /// The form has no `file_id`: nothing is deleted, and the reply redirects.
    Skip,
    /// The identifier holds `..`: rejected before the directory is read.
    Invalid,
    /// No regular file of the directory has that name.
    NotFound,
    /// The entry at this index of the listing is to be removed.
    Remove(usize),
}

/// Whether the entry `e` is the regular file with identifier `id`.
pub open spec fn names_file(e: DirEntryInfo, id: Seq<char>) -> bool {
    e.is_file && entry_id(e) == id
}

/// Whether `i` is the first index of `es` whose entry is the file named `id`.
pub open spec fn first_match(es: Seq<DirEntryInfo>, id: Seq<char>, i: int) -> bool {
    0 <= i < es.len() && names_file(es[i], id) && forall|j: int|
        0 <= j < i ==> !#[trigger] names_file(es[j], id)
}

/// The plan for a delete form whose `file_id` field is `file_id`, against
/// the directory listing `es`.
pub open spec fn delete_plan(file_id: Option<Seq<char>>, es: Seq<DirEntryInfo>) -> DeletePlan {
    match file_id {
        None => DeletePlan::Skip,
        Some(id) => if guarded_id(id, percent_decoded(id)) is None {
            DeletePlan::Invalid
        } else if exists|i: int| first_match(es, id, i) {
            DeletePlan::Remove((choose|i: int| first_match(es, id, i)) as usize)
        } else {
            DeletePlan::NotFound
        },
    }
}

proof fn lemma_first_match_unique(es: Seq<DirEntryInfo>, id: Seq<char>, i: int, k: int)
    requires
        first_match(es, id, i),
        first_match(es, id, k),
    ensures
        i == k,
{
    if i < k {
        assert(names_file(es[i], id));
    } else if k < i {
        assert(names_file(es[k], id));
    }
}

/// Validates a delete identifier once it has been decoded: refused when it
/// holds `..` before or after decoding, or cannot be decoded. The form value
/// itself is what names the file, as the form parser already decoded it.
pub fn check_delete_id(id: String, decoded: Option<String>) -> (r: Result<String, DeletePlan>)
    ensures
        guarded_id(id@, decoded.deep_view()) is None ==> r == Err::<String, DeletePlan>(
            DeletePlan::Invalid,
        ),
        guarded_id(id@, decoded.deep_view()) is Some ==> (r matches Ok(t) && t@ == id@),
{
    match decoded {
        Some(d) => {
            if contains_parent_token(id.as_str()) || contains_parent_token(d.as_str()) {
                Err(DeletePlan::Invalid)
            } else {
                Ok(id)
            }
        },
        None => Err(DeletePlan::Invalid),
    }
}

/// The first step of a delete, taken before the directory is read: the
/// identifier to look for, or the plan already decided without it.
pub fn delete_target(file_id: Option<String>) -> (r: Result<String, DeletePlan>)
    ensures
        file_id is None ==> r == Err::<String, DeletePlan>(DeletePlan::Skip),
        file_id matches Some(id) ==> if guarded_id(id@, percent_decoded(id@)) is None {
            r == Err::<String, DeletePlan>(DeletePlan::Invalid)
        } else {
            r matches Ok(t) && t@ == id@
        },
{
    match file_id {
        None => Err(DeletePlan::Skip),
        Some(id) => {
            let decoded = url_decode(id.as_str());
            check_delete_id(id, decoded)
        },
    }
}

/// The index of the first regular file of the listing whose identifier is
/// exactly `id`, if there is one. Stream and delete look files up this way,
/// so only files of the library directory are ever reached.
pub fn find_entry(id: &String, entries: &Vec<DirEntryInfo>) -> (r: Option<usize>)
    ensures
        r matches Some(i) ==> first_match(entries@, id@, i as int),
        r is None ==> !exists|k: int| first_match(entries@, id@, k),
{
    let mut i: usize = 0;
    while i < entries.len()
        invariant
            i <= entries@.len(),
            forall|j: int| 0 <= j < i ==> !#[trigger] names_file(entries@[j], id@),
        decreases entries@.len() - i,
    {
        let e = &entries[i];
        if e.is_file && entry_id_exec(e).eq(id) {
            assert(first_match(entries@, id@, i as int));
            return Some(i);
        }
        i = i + 1;
    }
    None
}

/// The second step of a delete: the first regular file of the listing with
/// exactly the identifier `id`, if there is one.
pub fn locate_file(id: &String, entries: &Vec<DirEntryInfo>) -> (r: DeletePlan)
    ensures
        guarded_id(id@, percent_decoded(id@)) is Some ==> r == delete_plan(Some(id@), entries@),
        r is NotFound || r is Remove,
{
    match find_entry(id, entries) {
        Some(i) => {
            proof {
                let k = choose|k: int| first_match(entries@, id@, k);
                lemma_first_match_unique(entries@, id@, i as int, k);
            }
            DeletePlan::Remove(i)
        },
        None => DeletePlan::NotFound,
    }
}

/// Decides what a delete form asks for: no identifier is a no-op, one that
/// holds `..` is rejected, and otherwise the first regular file of the
/// listing with exactly that name is removed, if there is one.
pub fn plan_delete(file_id: Option<String>, entries: &Vec<DirEntryInfo>) -> (r: DeletePlan)
    ensures
        r == delete_plan(file_id.deep_view(), entries@),
{
    match delete_target(file_id) {
        Ok(id) => locate_file(&id, entries),
        Err(plan) => plan,
    }
}

/// The reply to a delete form once the plan has been carried out;
/// `removed` tells whether removing the file succeeded.
pub fn delete_reply(plan: &DeletePlan, removed: bool) -> (r: Reply)
    ensures
        r@ == match *plan {
            DeletePlan::Skip => redirect_home(),
            DeletePlan::Invalid => text_reply(STATUS_BAD_REQUEST, INVALID_NAME_TEXT@),
            DeletePlan::NotFound => text_reply(STATUS_NOT_FOUND, NOT_FOUND_TEXT@),
            DeletePlan::Remove(_) => if removed {
                redirect_home()
            } else {
                text_reply(STATUS_INTERNAL_ERROR, DELETE_FAILED_TEXT@)
            },
        },
{
    match plan {
        DeletePlan::Skip => redirect_to_index(),
        DeletePlan::Invalid => text(STATUS_BAD_REQUEST, INVALID_NAME_TEXT),
        DeletePlan::NotFound => text(STATUS_NOT_FOUND, NOT_FOUND_TEXT),
        DeletePlan::Remove(_) => {
            if removed {
                redirect_to_index()
            } else {
                text(STATUS_INTERNAL_ERROR, DELETE_FAILED_TEXT)
            }
        },
    }
}

/// The entries of a listing have distinct identifiers, as a well-formed
/// listing does (`lemma_entry_ids_distinct`).
pub open spec fn distinct_names(es: Seq<DirEntryInfo>) -> bool {
    forall|a: int, b: int|
        0 <= a < es.len() && 0 <= b < es.len() && a != b ==> #[trigger] entry_id(es[a]) != #[trigger] entry_id(es[b])
}

/// An identifier with `..`, before or after decoding, is refused by delete
/// whatever the directory holds, so the directory is never touched.
pub proof fn lemma_delete_rejects_parent_token(id: Seq<char>, es: Seq<DirEntryInfo>)
    requires
        has_parent_token(id) || (percent_decoded(id) matches Some(d) && has_parent_token(d)),
    ensures
        delete_plan(Some(id), es) == DeletePlan::Invalid,
{
}

/// Deleting an existing file removes exactly the entry with that name and
/// redirects; once it is gone, the same delete finds nothing.
pub proof fn lemma_delete_then_not_found(id: Seq<char>, es: Seq<DirEntryInfo>, i: int)
    requires
        distinct_names(es),
        guarded_id(id, percent_decoded(id)) is Some,
        0 <= i < es.len(),
        names_file(es[i], id),
    ensures
        delete_plan(Some(id), es) == DeletePlan::Remove(i as usize),
        delete_plan(Some(id), es.remove(i)) == DeletePlan::NotFound,
{
    assert(first_match(es, id, i)) by {
        assert forall|j: int| 0 <= j < i implies !#[trigger] names_file(es[j], id) by {
            if names_file(es[j], id) {
                assert(entry_id(es[j]) != entry_id(es[i]));
            }
        }
    }
    let k = choose|k: int| first_match(es, id, k);
    lemma_first_match_unique(es, id, i, k);
    let rest = es.remove(i);
    assert forall|k: int| !first_match(rest, id, k) by {
        if first_match(rest, id, k) {
            if k < i {
                assert(rest[k] == es[k]);
                assert(entry_id(es[k]) != entry_id(es[i]));
            } else {
                assert(rest[k] == es[k + 1]);
                assert(entry_id(es[k + 1]) != entry_id(es[i]));
            }
        }
    }
}

/// A file whose upload was accepted is listed afterwards: once the directory
/// holds a regular file under the uploaded name, scanning it gives a track
/// with that file name.
pub proof fn lemma_uploaded_file_is_listed(name: Seq<char>, es: Seq<DirEntryInfo>, i: int)
    requires
        upload_accepted(name),
        0 <= i < es.len(),
        names_file(es[i], name),
    ensures
        exists|k: int| 0 <= k < scan(es).len() && (#[trigger] scan(es)[k]).file_name == name,
{
    if !es[i].name_is_utf8 {
        assert(entry_id(es[i])[0] == '/');
        assert(name.contains('/'));
    }
    assert(is_track_entry(es[i]));
    lemma_scan_members(es, entry_track(es[i]));
    let k = scan(es).index_of(entry_track(es[i]));
    assert(scan(es)[k].file_name == name);
}

} // verus!
