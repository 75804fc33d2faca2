use vstd::prelude::*;

verus! {

/// True when `s` holds `..` starting at position `i`.
pub open spec fn dots_at(s: Seq<char>, i: int) -> bool {
    0 <= i && i + 1 < s.len() && s[i] == '.' && s[i + 1] == '.'
}

/// True when `s` holds the parent-directory token `..` somewhere.
pub open spec fn has_parent_token(s: Seq<char>) -> bool {
    exists|i: int| #[trigger] dots_at(s, i)
}

/// True when `s` ends in `.mp3` or `.MP3`.
pub open spec fn has_mp3_suffix(s: Seq<char>) -> bool {
    s.len() >= 4 && {
        let n = s.len();
        s[n - 4] == '.' && ((s[n - 3] == 'm' && s[n - 2] == 'p') || (s[n - 3] == 'M' && s[n
            - 2] == 'P')) && s[n - 1] == '3'
    }
}

/// Whether `id` holds the parent-directory token `..`.
pub fn contains_parent_token(id: &str) -> (r: bool)
    ensures
        r == has_parent_token(id@),
{
    let n = id.unicode_len();
    let mut i: usize = 0;
    let mut prev_dot = false;
    while i < n
        invariant
            n == id@.len(),
            i <= n,
            prev_dot == (i > 0 && id@[i - 1] == '.'),
            forall|j: int| j + 1 < i ==> !#[trigger] dots_at(id@, j),
        decreases n - i,
    {
        let c = id.get_char(i);
        if c == '.' && prev_dot {
            assert(dots_at(id@, i - 1));
            return true;
        }
        prev_dot = c == '.';
        i = i + 1;
    }
    false
}

/// Whether `name` ends in `.mp3` or `.MP3`.
pub fn is_mp3_name(name: &str) -> (r: bool)
    ensures
        r == has_mp3_suffix(name@),
{
    let n = name.unicode_len();
    if n < 4 {
        return false;
    }
    let dot = name.get_char(n - 4);
    let m = name.get_char(n - 3);
    let p = name.get_char(n - 2);
    let three = name.get_char(n - 1);
    dot == '.' && ((m == 'm' && p == 'p') || (m == 'M' && p == 'P')) && three == '3'
}

/// What percent-decoding `s` gives, read as UTF-8; `None` when the decoded
/// bytes are not UTF-8.
pub uninterp spec fn percent_decoded(s: Seq<char>) -> Option<Seq<char>>;

/// Relies on `urlencoding::decode`: decodes `%XX` escapes and reads the bytes
/// as UTF-8, failing only on bytes that are not UTF-8; a string without `%`
/// comes back as it is, and characters other than `%` escapes are copied
/// in order, so a literal `..` stays in the result.
#[verifier::external_body]
pub(crate) fn url_decode(s: &str) -> (r: Option<String>)
    ensures
        r.deep_view() == percent_decoded(s@),
        !s@.contains('%') ==> r.deep_view() == Some(s@),
        has_parent_token(s@) ==> (r matches Some(d) ==> has_parent_token(d@)),
{
    match urlencoding::decode(s) {
        Ok(d) => Some(d.into_owned()),
        Err(_) => None,
    }
}

/// The identifier that a client's raw identifier `raw` stands for, given
/// what decoding it gave: `None` (refused) when decoding failed or when the
/// identifier holds `..` before or after decoding. Stream and delete apply
/// this same guard.
pub open spec fn guarded_id(raw: Seq<char>, decoded: Option<Seq<char>>) -> Option<Seq<char>> {
    match decoded {
        Some(d) => if has_parent_token(raw) || has_parent_token(d) {
            None
        } else {
            Some(d)
        },
        None => None,
    }
}

/// Validates a stream identifier once it has been decoded.
pub fn check_stream_id(raw: &str, decoded: Option<String>) -> (r: Option<String>)
    ensures
        r.deep_view() == guarded_id(raw@, decoded.deep_view()),
{
    match decoded {
        Some(d) => {
            if contains_parent_token(raw) || contains_parent_token(d.as_str()) {
                None
            } else {
                Some(d)
            }
        },
        None => None,
    }
}

/// Decodes and validates the raw path segment of a stream request; `None`
/// means the request is answered with "not found".
pub fn resolve_stream_id(raw: &str) -> (r: Option<String>)
    ensures
        r.deep_view() == guarded_id(raw@, percent_decoded(raw@)),
        has_parent_token(raw@) ==> r is None,
        r matches Some(t) ==> !has_parent_token(t@),
        percent_decoded(raw@) matches Some(d) ==> (!has_parent_token(d) ==> r.deep_view() == Some(d)),
{
    let decoded = url_decode(raw);
    check_stream_id(raw, decoded)
}

/// A stream identifier with `..`, before or after decoding, is refused
/// whatever decoding gave, so no path is ever built from it.
pub proof fn lemma_stream_rejects_parent_token(raw: Seq<char>, decoded: Option<Seq<char>>)
    requires
        has_parent_token(raw) || (decoded matches Some(d) && has_parent_token(d)),
    ensures
        guarded_id(raw, decoded) is None,
{
}

} // verus!
