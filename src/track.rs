use vstd::prelude::*;
use vstd::multiset::Multiset;

use crate::guard::{has_mp3_suffix, is_mp3_name};

verus! {

/// One audio file of the library.
#[derive(Debug, Clone)]
pub struct Track {
    pub id: String,
    pub file_name: String,
    pub title: Option<String>,
    pub artist: Option<String>,
    pub album: Option<String>,
    pub path: String,
    pub play_count: u32,
}

/// The mathematical value of a [`Track`].
pub struct TrackView {
    pub id: Seq<char>,
    pub file_name: Seq<char>,
    pub title: Option<Seq<char>>,
    pub artist: Option<Seq<char>>,
    pub album: Option<Seq<char>>,
    pub path: Seq<char>,
    pub play_count: u32,
}

impl View for Track {
    type V = TrackView;

    open spec fn view(&self) -> TrackView {
        TrackView {
            id: self.id@,
            file_name: self.file_name@,
            title: self.title.deep_view(),
            artist: self.artist.deep_view(),
            album: self.album.deep_view(),
            path: self.path@,
            play_count: self.play_count,
        }
    }
}

/// Title, artist and album as read from a tag block.
pub type TagText = (Option<Seq<char>>, Option<Seq<char>>, Option<Seq<char>>);

/// Title, artist and album read from a tag block.
#[derive(Debug, Clone)]
pub struct TagFields {
    pub title: Option<String>,
    pub artist: Option<String>,
    pub album: Option<String>,
}

pub open spec fn tag_text(f: TagFields) -> TagText {
    (f.title.deep_view(), f.artist.deep_view(), f.album.deep_view())
}

pub open spec fn opt_tag_text(f: Option<TagFields>) -> Option<TagText> {
    match f {
        Some(t) => Some(tag_text(t)),
        None => None,
    }
}

/// What the ID3v2 reader finds in a file's bytes; `None` when it finds no
/// readable tag.
pub uninterp spec fn id3v2_text(data: Seq<u8>) -> Option<TagText>;

/// What the ID3v1 reader finds in a file's bytes; `None` when it finds no
/// readable tag.
pub uninterp spec fn id3v1_text(data: Seq<u8>) -> Option<TagText>;

/// Relies on `id3::Tag::read_from2` and the tag's `title`, `artist` and
/// `album` accessors: the tag's text frames, read from the bytes alone.
#[verifier::external_body]
fn read_id3v2(data: &Vec<u8>) -> (r: Option<TagFields>)
    ensures
        opt_tag_text(r) == id3v2_text(data@),
{
    match id3::Tag::read_from2(std::io::Cursor::new(data.as_slice())) {
        Ok(tag) => Some(TagFields {
            title: id3::TagLike::title(&tag).map(|s| s.to_string()),
            artist: id3::TagLike::artist(&tag).map(|s| s.to_string()),
            album: id3::TagLike::album(&tag).map(|s| s.to_string()),
        }),
        Err(_) => None,
    }
}

/// Relies on `id3::v1::Tag::read_from`: the trailing ID3v1 block, read from
/// the bytes alone, whose three text fields are always there.
#[verifier::external_body]
fn read_id3v1(data: &Vec<u8>) -> (r: Option<TagFields>)
    ensures
        opt_tag_text(r) == id3v1_text(data@),
        r matches Some(f) ==> f.title is Some && f.artist is Some && f.album is Some,
{
    match id3::v1::Tag::read_from(std::io::Cursor::new(data.as_slice())) {
        Ok(tag) => Some(TagFields {
            title: Some(tag.title),
            artist: Some(tag.artist),
            album: Some(tag.album),
        }),
        Err(_) => None,
    }
}

/// The tag text chosen from what the two readers found: the modern tag
/// format first, then the legacy one, and nothing when neither was read.
pub open spec fn first_tag(v2: Option<TagText>, v1: Option<TagText>) -> TagText {
    match v2 {
        Some(t) => t,
        None => match v1 {
            Some(t) => t,
            None => (None, None, None),
        },
    }
}

/// The tag text of a file's contents.
pub open spec fn tag_of(data: Seq<u8>) -> TagText {
    first_tag(id3v2_text(data), id3v1_text(data))
}

/// A field is absent when missing or empty.
pub open spec fn present(f: Option<Seq<char>>) -> Option<Seq<char>> {
    match f {
        Some(s) => if s.len() > 0 {
            Some(s)
        } else {
            None
        },
        None => None,
    }
}

/// The track of a file named `name` at `path` whose tag text is `t`.
pub open spec fn track_with_tag(name: Seq<char>, path: Seq<char>, t: TagText) -> TrackView {
    TrackView {
        id: name,
        file_name: name,
        title: present(t.0),
        artist: present(t.1),
        album: present(t.2),
        path: path,
        play_count: 0,
    }
}

/// The track that a file named `name` at `path` with contents `data` gives.
pub open spec fn track_of(name: Seq<char>, path: Seq<char>, data: Seq<u8>) -> TrackView {
    track_with_tag(name, path, tag_of(data))
}

fn present_field(f: Option<String>) -> (r: Option<String>)
    ensures
        r.deep_view() == present(f.deep_view()),
{
    match f {
        Some(s) => {
            if s.as_str().unicode_len() > 0 {
                Some(s)
            } else {
                None
            }
        },
        None => None,
    }
}

/// Picks the tag text from what the two readers found, first success wins.
pub fn select_tag(v2: Option<TagFields>, v1: Option<TagFields>) -> (r: TagFields)
    ensures
        tag_text(r) == first_tag(opt_tag_text(v2), opt_tag_text(v1)),
{
    match v2 {
        Some(f) => f,
        None => match v1 {
            Some(f) => f,
            None => TagFields { title: None, artist: None, album: None },
        },
    }
}

/// Reads the tag text of a file's contents with both readers.
pub fn read_tag(data: &Vec<u8>) -> (r: TagFields)
    ensures
        tag_text(r) == tag_of(data@),
{
    let v2 = read_id3v2(data);
    let v1 = read_id3v1(data);
    select_tag(v2, v1)
}

/// Builds the track of a library file from its name, path and tag text;
/// empty fields become absent.
pub fn track_from_tag(file_name: &str, path: &str, tag: TagFields) -> (t: Track)
    ensures
        t@ == track_with_tag(file_name@, path@, tag_text(tag)),
{
    Track {
        id: String::from_str(file_name),
        file_name: String::from_str(file_name),
        title: present_field(tag.title),
        artist: present_field(tag.artist),
        album: present_field(tag.album),
        path: String::from_str(path),
        play_count: 0,
    }
}

/// Builds the track of one library file from its name, path and contents.
pub fn track_from_file(file_name: &str, path: &str, data: &Vec<u8>) -> (t: Track)
    ensures
        t@ == track_of(file_name@, path@, data@),
{
    track_from_tag(file_name, path, read_tag(data))
}

/// Tag text carries over into the track: a title and an artist that the
/// modern tag reader finds in a file come back as they are.
pub proof fn lemma_tag_round_trip(
    name: Seq<char>,
    path: Seq<char>,
    data: Seq<u8>,
    title: Seq<char>,
    artist: Seq<char>,
    album: Option<Seq<char>>,
)
    requires
        id3v2_text(data) == Some((Some(title), Some(artist), album)),
        title.len() > 0,
        artist.len() > 0,
    ensures
        track_of(name, path, data).title == Some(title),
        track_of(name, path, data).artist == Some(artist),
{
}

/// A file in which neither tag reader finds a tag gives a track whose title,
/// artist and album are all absent.
pub proof fn lemma_untagged_track(name: Seq<char>, path: Seq<char>, data: Seq<u8>)
    requires
        id3v2_text(data) is None,
        id3v1_text(data) is None,
    ensures
        track_of(name, path, data).title is None,
        track_of(name, path, data).artist is None,
        track_of(name, path, data).album is None,
{
}

/// The digits of a byte written in hexadecimal.
pub const HEX_DIGITS: &'static str = "0123456789abcdef";

/// A byte as two hexadecimal digits.
pub open spec fn hex_pair(b: u8) -> Seq<char> {
    HEX_DIGITS@.subrange(b as int / 16, b as int / 16 + 1) + HEX_DIGITS@.subrange(
        b as int % 16,
        b as int % 16 + 1,
    )
}

/// Bytes as hexadecimal digits, two per byte.
pub open spec fn hex_text(bs: Seq<u8>) -> Seq<char>
    decreases bs.len(),
{
    if bs.len() == 0 {
        Seq::empty()
    } else {
        hex_text(bs.drop_last()) + hex_pair(bs.last())
    }
}

proof fn lemma_hex_text_len(bs: Seq<u8>)
    ensures
        hex_text(bs).len() == 2 * bs.len(),
    decreases bs.len(),
{
    reveal_strlit("0123456789abcdef");
    if bs.len() > 0 {
        lemma_hex_text_len(bs.drop_last());
    }
}

proof fn lemma_hex_pair_injective(a: u8, b: u8)
    requires
        hex_pair(a) == hex_pair(b),
    ensures
        a == b,
{
    reveal_strlit("0123456789abcdef");
    let hex = HEX_DIGITS@;
    assert(hex =~= seq!['0', '1', '2', '3', '4', '5', '6', '7', '8', '9', 'a', 'b', 'c', 'd', 'e', 'f']);
    assert(hex_pair(a)[0] == hex[a as int / 16]);
    assert(hex_pair(b)[0] == hex[b as int / 16]);
    assert(hex_pair(a)[1] == hex[a as int % 16]);
    assert(hex_pair(b)[1] == hex[b as int % 16]);
    assert(a / 16 == b / 16);
    assert(a % 16 == b % 16);
}

/// Distinct byte strings have distinct hexadecimal texts.
pub proof fn lemma_hex_text_injective(a: Seq<u8>, b: Seq<u8>)
    requires
        hex_text(a) == hex_text(b),
    ensures
        a == b,
    decreases a.len(),
{
    lemma_hex_text_len(a);
    lemma_hex_text_len(b);
    if a.len() > 0 {
        lemma_hex_text_len(a.drop_last());
        lemma_hex_text_len(b.drop_last());
        let n = 2 * (a.len() - 1);
        assert(hex_text(a).subrange(0, n) =~= hex_text(a.drop_last()));
        assert(hex_text(b).subrange(0, n) =~= hex_text(b.drop_last()));
        assert(hex_text(a).subrange(n, n + 2) =~= hex_pair(a.last()));
        assert(hex_text(b).subrange(n, n + 2) =~= hex_pair(b.last()));
        lemma_hex_text_injective(a.drop_last(), b.drop_last());
        lemma_hex_pair_injective(a.last(), b.last());
        assert(a =~= a.drop_last().push(a.last()));
        assert(b =~= b.drop_last().push(b.last()));
    } else {
        assert(a =~= b);
    }
}

fn push_hex_byte(out: &mut String, b: u8)
    ensures
        final(out)@ == old(out)@ + hex_pair(b),
{
    proof {
        reveal_strlit("0123456789abcdef");
    }
    let hi = (b / 16) as usize;
    let lo = (b % 16) as usize;
    out.append(HEX_DIGITS.substring_char(hi, hi + 1));
    out.append(HEX_DIGITS.substring_char(lo, lo + 1));
    assert(final(out)@ =~= old(out)@ + hex_pair(b));
}

/// The identifier of a file whose name is not UTF-8: `/` and the name's
/// bytes in hexadecimal. No file name holds `/`, so it cannot be the name of
/// another file.
pub open spec fn raw_name_id(bs: Seq<u8>) -> Seq<char> {
    seq!['/'] + hex_text(bs)
}

/// Writes the identifier of a file whose name is not UTF-8.
pub fn raw_name_id_exec(bs: &Vec<u8>) -> (r: String)
    ensures
        r@ == raw_name_id(bs@),
{
    let mut r = String::from_str("/");
    proof {
        reveal_strlit("/");
    }
    let mut i: usize = 0;
    while i < bs.len()
        invariant
            i <= bs@.len(),
            r@ == seq!['/'] + hex_text(bs@.subrange(0, i as int)),
        decreases bs@.len() - i,
    {
        proof {
            assert(bs@.subrange(0, i + 1).drop_last() =~= bs@.subrange(0, i as int));
        }
        push_hex_byte(&mut r, bs[i]);
        assert(r@ =~= seq!['/'] + hex_text(bs@.subrange(0, i + 1)));
        i = i + 1;
    }
    assert(bs@.subrange(0, bs@.len() as int) =~= bs@);
    r
}

/// One entry of the library directory, as the file system reported it.
pub struct DirEntryInfo {
    /// The entry's name, when it is valid UTF-8.
    pub name: String,
    /// Whether the name was valid UTF-8.
    pub name_is_utf8: bool,
    /// The name's bytes as the file system holds them.
    pub name_bytes: Vec<u8>,
    /// The entry's full path.
    pub path: String,
    /// Whether the entry is a regular file.
    pub is_file: bool,
    /// The file's contents; only read for entries that are tracks.
    pub data: Vec<u8>,
}

/// Whether an entry of the library directory is an audio file. For a name
/// that is not UTF-8, `name` holds its readable form.
pub open spec fn is_track_entry(e: DirEntryInfo) -> bool {
    e.is_file && has_mp3_suffix(e.name@)
}

/// The identifier, and file name, of an entry: its name, or for a name that
/// is not UTF-8, an escaped form of its bytes.
pub open spec fn entry_id(e: DirEntryInfo) -> Seq<char> {
    if e.name_is_utf8 {
        e.name@
    } else {
        raw_name_id(e.name_bytes@)
    }
}

/// The identifier of an entry.
pub fn entry_id_exec(e: &DirEntryInfo) -> (r: String)
    ensures
        r@ == entry_id(*e),
{
    if e.name_is_utf8 {
        e.name.clone()
    } else {
        raw_name_id_exec(&e.name_bytes)
    }
}

/// A listing as a directory gives it: no name holds `/`, and no two entries
/// have the same name.
pub open spec fn listing_well_formed(es: Seq<DirEntryInfo>) -> bool {
    &&& forall|i: int| 0 <= i < es.len() && #[trigger] es[i].name_is_utf8 ==> !es[i].name@.contains('/')
    &&& forall|a: int, b: int|
        0 <= a < es.len() && 0 <= b < es.len() && a != b ==> !same_name(#[trigger] es[a], #[trigger] es[b])
}

/// Whether two entries have the same name; a UTF-8 name and one that is not
/// are never the same bytes.
pub open spec fn same_name(x: DirEntryInfo, y: DirEntryInfo) -> bool {
    if x.name_is_utf8 && y.name_is_utf8 {
        x.name@ == y.name@
    } else if !x.name_is_utf8 && !y.name_is_utf8 {
        x.name_bytes@ == y.name_bytes@
    } else {
        false
    }
}

/// Entries with different names have different identifiers.
pub proof fn lemma_entry_ids_distinct(x: DirEntryInfo, y: DirEntryInfo)
    requires
        !same_name(x, y),
        x.name_is_utf8 ==> !x.name@.contains('/'),
        y.name_is_utf8 ==> !y.name@.contains('/'),
    ensures
        entry_id(x) != entry_id(y),
{
    if !x.name_is_utf8 && !y.name_is_utf8 {
        if entry_id(x) == entry_id(y) {
            assert(hex_text(x.name_bytes@) =~= entry_id(x).subrange(1, entry_id(x).len() as int));
            assert(hex_text(y.name_bytes@) =~= entry_id(y).subrange(1, entry_id(y).len() as int));
            lemma_hex_text_injective(x.name_bytes@, y.name_bytes@);
        }
    } else if x.name_is_utf8 && !y.name_is_utf8 {
        assert(entry_id(y)[0] == '/');
        if entry_id(x) == entry_id(y) {
            assert(x.name@.contains('/')) by { assert(x.name@[0] == '/'); }
        }
    } else if !x.name_is_utf8 && y.name_is_utf8 {
        assert(entry_id(x)[0] == '/');
        if entry_id(x) == entry_id(y) {
            assert(y.name@.contains('/')) by { assert(y.name@[0] == '/'); }
        }
    }
}

pub open spec fn entry_track(e: DirEntryInfo) -> TrackView {
    track_of(entry_id(e), e.path@, e.data@)
}

/// The tracks of a directory listing, in the listing's order.
pub open spec fn scan(es: Seq<DirEntryInfo>) -> Seq<TrackView>
    decreases es.len(),
{
    if es.len() == 0 {
        Seq::empty()
    } else {
        let rest = scan(es.drop_last());
        if is_track_entry(es.last()) {
            rest.push(entry_track(es.last()))
        } else {
            rest
        }
    }
}

pub open spec fn track_views(ts: Seq<Track>) -> Seq<TrackView> {
    ts.map_values(|t: Track| t@)
}

/// Whether an entry of the library directory is an audio file; only those
/// need their contents read.
pub fn is_track_file(e: &DirEntryInfo) -> (r: bool)
    ensures
        r == is_track_entry(*e),
{
    e.is_file && is_mp3_name(e.name.as_str())
}

/// No two tracks share an identifier or a file name.
pub open spec fn ids_distinct(ts: Seq<Track>) -> bool {
    forall|a: int, b: int|
        0 <= a < ts.len() && 0 <= b < ts.len() && a != b ==> #[trigger] distinct_at(ts, a, b)
}

/// The tracks at `a` and `b` differ in identifier and in file name.
pub open spec fn distinct_at(ts: Seq<Track>, a: int, b: int) -> bool {
    ts[a].id@ != ts[b].id@ && ts[a].file_name@ != ts[b].file_name@
}

/// Lists the tracks of the library from its directory listing: every regular
/// file named `*.mp3` or `*.MP3` gives one track, in listing order, and every
/// other entry is skipped. Each track's identifier and file name is its
/// entry's identifier, so a well-formed listing gives distinct identifiers.
pub fn get_all_tracks(entries: &Vec<DirEntryInfo>) -> (r: Vec<Track>)
    ensures
        track_views(r@) == scan(entries@),
        listing_well_formed(entries@) ==> ids_distinct(r@),
{
    let mut tracks: Vec<Track> = Vec::new();
    let ghost mut from: Seq<int> = Seq::empty();
    let mut i: usize = 0;
    while i < entries.len()
        invariant
            i <= entries@.len(),
            track_views(tracks@) == scan(entries@.subrange(0, i as int)),
            from.len() == tracks@.len(),
            forall|k: int| 0 <= k < from.len() ==> 0 <= #[trigger] from[k] < i,
            forall|k: int, l: int| 0 <= k < l < from.len() ==> #[trigger] from[k] < #[trigger] from[l],
            forall|k: int|
                0 <= k < tracks@.len() ==> #[trigger] tracks@[k].id@ == entry_id(entries@[from[k]])
                    && tracks@[k].file_name@ == entry_id(entries@[from[k]]),
        decreases entries@.len() - i,
    {
        let e = &entries[i];
        proof {
            assert(entries@.subrange(0, i + 1).drop_last() =~= entries@.subrange(0, i as int));
        }
        if is_track_file(e) {
            let name = entry_id_exec(e);
            let t = track_from_file(name.as_str(), e.path.as_str(), &e.data);
            tracks.push(t);
            proof {
                from = from.push(i as int);
            }
            assert(track_views(tracks@) =~= scan(entries@.subrange(0, i as int)).push(t@));
        }
        i = i + 1;
    }
    assert(entries@.subrange(0, entries@.len() as int) =~= entries@);
    proof {
        if listing_well_formed(entries@) {
            assert forall|a: int, b: int|
                0 <= a < tracks@.len() && 0 <= b < tracks@.len() && a != b implies #[trigger] distinct_at(
                    tracks@,
                    a,
                    b,
                ) by {
                let x = entries@[from[a]];
                let y = entries@[from[b]];
                assert(0 <= from[a] < entries@.len() && 0 <= from[b] < entries@.len());
                assert(0 <= a < tracks@.len());
                assert(tracks@[a].id@ == entry_id(entries@[from[a]]));
                assert(tracks@[a].id@ == entry_id(x) && tracks@[a].file_name@ == entry_id(x));
                assert(0 <= b < tracks@.len());
                assert(tracks@[b].id@ == entry_id(entries@[from[b]]));
                assert(tracks@[b].id@ == entry_id(y) && tracks@[b].file_name@ == entry_id(y));
                if a < b {
                    assert(from[a] < from[b]);
                } else {
                    assert(from[b] < from[a]);
                }
                assert(!same_name(entries@[from[a]], entries@[from[b]]));
                assert(x.name_is_utf8 ==> !x.name@.contains('/'));
                assert(y.name_is_utf8 ==> !y.name@.contains('/'));
                lemma_entry_ids_distinct(x, y);
            }
            assert(ids_distinct(tracks@));
        }
    }
    tracks
}

/// A track is listed exactly when some track entry of the listing gives it.
pub proof fn lemma_scan_members(es: Seq<DirEntryInfo>, t: TrackView)
    ensures
        scan(es).contains(t) <==> exists|i: int|
            0 <= i < es.len() && is_track_entry(#[trigger] es[i]) && entry_track(es[i]) == t,
    decreases es.len(),
{
    if es.len() > 0 {
        let init = es.drop_last();
        lemma_scan_members(init, t);
        if scan(es).contains(t) {
            if scan(init).contains(t) {
                let i = choose|i: int|
                    0 <= i < init.len() && is_track_entry(#[trigger] init[i]) && entry_track(
                        init[i],
                    ) == t;
                assert(es[i] == init[i]);
            } else {
                assert(is_track_entry(es.last()));
                assert(scan(es) == scan(init).push(entry_track(es.last())));
                assert(es[es.len() - 1] == es.last());
            }
        }
        if exists|i: int| 0 <= i < es.len() && is_track_entry(#[trigger] es[i]) && entry_track(es[i]) == t {
            let i = choose|i: int|
                0 <= i < es.len() && is_track_entry(#[trigger] es[i]) && entry_track(es[i]) == t;
            if i < es.len() - 1 {
                assert(init[i] == es[i]);
                if is_track_entry(es.last()) {
                    assert(scan(es) == scan(init).push(entry_track(es.last())));
                    let j = scan(init).index_of(t);
                    assert(scan(es)[j] == t);
                }
            } else {
                assert(scan(es) == scan(init).push(entry_track(es.last())));
                assert(scan(es)[scan(es).len() - 1] == t);
            }
        }
    }
}

/// The track listing handed to the host application.
pub struct TrackResponse {
    pub tracks: Vec<Track>,
}

/// Lists the tracks of the library for the host application.
pub fn get_tracks(entries: &Vec<DirEntryInfo>) -> (r: TrackResponse)
    ensures
        track_views(r.tracks@) == scan(entries@),
{
    TrackResponse { tracks: get_all_tracks(entries) }
}

/// Scanning is idempotent: two listings of the same unchanged directory,
/// whatever order the entries come in, give the same set of tracks.
pub proof fn lemma_scan_idempotent(a: Seq<DirEntryInfo>, b: Seq<DirEntryInfo>)
    requires
        a.to_set() == b.to_set(),
    ensures
        scan(a).to_set() == scan(b).to_set(),
{
    assert forall|t: TrackView| scan(a).to_set().contains(t) == scan(b).to_set().contains(t) by {
        lemma_scan_members(a, t);
        lemma_scan_members(b, t);
        if scan(a).contains(t) {
            let i = choose|i: int|
                0 <= i < a.len() && is_track_entry(#[trigger] a[i]) && entry_track(a[i]) == t;
            assert(a.to_set().contains(a[i]));
            assert(b.contains(a[i]));
            let j = b.index_of(a[i]);
            assert(b[j] == a[i]);
        }
        if scan(b).contains(t) {
            let i = choose|i: int|
                0 <= i < b.len() && is_track_entry(#[trigger] b[i]) && entry_track(b[i]) == t;
            assert(b.to_set().contains(b[i]));
            assert(a.contains(b[i]));
            let j = a.index_of(b[i]);
            assert(a[j] == b[i]);
        }
    }
    assert(scan(a).to_set() =~= scan(b).to_set());
}

/// The tracks that one entry contributes to a scan.
pub open spec fn entry_bag(e: DirEntryInfo) -> Multiset<TrackView> {
    if is_track_entry(e) {
        Multiset::singleton(entry_track(e))
    } else {
        Multiset::empty()
    }
}

proof fn lemma_scan_bag_last(es: Seq<DirEntryInfo>)
    requires
        es.len() > 0,
    ensures
        scan(es).to_multiset() =~= scan(es.drop_last()).to_multiset().add(entry_bag(es.last())),
{
    broadcast use vstd::seq_lib::group_to_multiset_ensures;
    broadcast use vstd::multiset::group_multiset_axioms;

    if is_track_entry(es.last()) {
        let rest = scan(es.drop_last());
        assert(rest.push(entry_track(es.last())).to_multiset() =~= rest.to_multiset().insert(
            entry_track(es.last()),
        ));
    } else {
        assert(scan(es.drop_last()).to_multiset().add(Multiset::empty()) =~= scan(
            es.drop_last(),
        ).to_multiset());
    }
}

proof fn lemma_scan_bag_remove(es: Seq<DirEntryInfo>, j: int)
    requires
        0 <= j < es.len(),
    ensures
        scan(es).to_multiset() =~= scan(es.remove(j)).to_multiset().add(entry_bag(es[j])),
    decreases es.len(),
{
    broadcast use vstd::multiset::group_multiset_axioms;

    lemma_scan_bag_last(es);
    if j == es.len() - 1 {
        assert(es.remove(j) =~= es.drop_last());
    } else {
        let rest = es.remove(j);
        assert(rest.drop_last() =~= es.drop_last().remove(j));
        assert(rest.last() == es.last());
        lemma_scan_bag_remove(es.drop_last(), j);
        lemma_scan_bag_last(rest);
        assert(es.drop_last()[j] == es[j]);
    }
}

/// Scanning is idempotent down to repeats: two listings holding the same
/// entries, in whatever order, give the same tracks, each as many times.
pub proof fn lemma_scan_permutation(a: Seq<DirEntryInfo>, b: Seq<DirEntryInfo>)
    requires
        a.to_multiset() == b.to_multiset(),
    ensures
        scan(a).to_multiset() == scan(b).to_multiset(),
    decreases a.len(),
{
    broadcast use vstd::seq_lib::group_to_multiset_ensures;
    broadcast use vstd::multiset::group_multiset_axioms;

    if a.len() == 0 {
        assert(a.to_multiset().len() == a.len());
        assert(b.to_multiset().len() == b.len());
        assert(b =~= a);
    } else {
        let x = a.last();
        assert(a =~= a.drop_last().push(x));
        assert(a.to_multiset().count(x) > 0);
        assert(b.contains(x));
        let j = b.index_of(x);
        let b2 = b.remove(j);
        assert(a.drop_last().to_multiset() =~= b2.to_multiset()) by {
            assert(a.drop_last().push(x).to_multiset() =~= a.drop_last().to_multiset().insert(x));
        }
        lemma_scan_permutation(a.drop_last(), b2);
        lemma_scan_bag_last(a);
        lemma_scan_bag_remove(b, j);
    }
}

} // verus!
