use vstd::prelude::*;

use crate::track::{track_views, Track, TrackView};

verus! {

/// Start of the library page: the upload form and the table header.
pub const INDEX_HEAD: &'static str = r#"
    <!DOCTYPE html>
    <html>
    <head>
        <meta charset="UTF-8">
        <meta name="viewport" content="width=device-width, initial-scale=1.0">
        <title>音楽プレイヤー管理</title>
        <style>
            body { font-family: sans-serif; max-width: 800px; margin: 0 auto; padding: 20px; }
            .upload-form { border: 1px solid #ccc; padding: 20px; margin-bottom: 20px; border-radius: 5px; }
            .track-list { border: 1px solid #ccc; padding: 20px; border-radius: 5px; }
            table { width: 100%; border-collapse: collapse; }
            th, td { padding: 8px; text-align: left; border-bottom: 1px solid #ddd; }
            button { cursor: pointer; padding: 5px 10px; }
        </style>
    </head>
    <body>
        <h1>音楽プレイヤー管理</h1>
        
        <div class="upload-form">
            <h2>MP3ファイルのアップロード</h2>
            <form action="/upload" method="post" enctype="multipart/form-data">
                <input type="file" name="mp3file" accept=".mp3" required>
                <button type="submit">アップロード</button>
            </form>
        </div>
        
        <div class="track-list">
            <h2>楽曲リスト</h2>
            <table>
                <thead>
                    <tr>
                        <th>曲名</th>
                        <th>アーティスト</th>
                        <th>アルバム</th>
                        <th>ファイル名</th>
                        <th>再生回数</th>
                        <th>操作</th>
                    </tr>
                </thead>
                <tbody>
    "#;

/// Start of a table row, before the title cell's text.
pub const ROW_OPEN: &'static str = r#"
                    <tr>
                        <td>"#;

/// Closes one cell of a row and opens the next.
pub const CELL_BREAK: &'static str = r#"</td>
                        <td>"#;

/// After the play count: the delete form, up to the identifier.
pub const ROW_FORM: &'static str = r#"</td>
                        <td>
                            <form action="/delete" method="post">
                                <input type="hidden" name="file_id" value=""#;

/// After the identifier: the end of the delete form and of the row.
pub const ROW_CLOSE: &'static str = r#"">
                                <button type="submit">削除</button>
                            </form>
                        </td>
                    </tr>
        "#;

/// End of the library page.
pub const INDEX_FOOT: &'static str = r#"
                </tbody>
            </table>
        </div>
    </body>
    </html>
    "#;

/// The page at the root of the loopback listener.
pub const STREAM_PAGE: &'static str = r#"
    <!DOCTYPE html>
    <html>
    <head>
        <title>音楽プレイヤーストリーミング</title>
    </head>
    <body>
        <h1>音楽プレイヤーストリーミング</h1>
    </body>
    </html>
    "#;

/// Shown for a missing title, artist or album.
pub const UNKNOWN: &'static str = "不明";

/// The text of one decimal digit.
pub open spec fn digit_text(d: nat) -> Seq<char> {
    if d == 0 {
        "0"@
    } else if d == 1 {
        "1"@
    } else if d == 2 {
        "2"@
    } else if d == 3 {
        "3"@
    } else if d == 4 {
        "4"@
    } else if d == 5 {
        "5"@
    } else if d == 6 {
        "6"@
    } else if d == 7 {
        "7"@
    } else if d == 8 {
        "8"@
    } else {
        "9"@
    }
}

/// `n` written in decimal, without leading zeros.
pub open spec fn decimal(n: nat) -> Seq<char>
    decreases n,
{
    if n < 10 {
        digit_text(n)
    } else {
        decimal(n / 10) + digit_text(n % 10)
    }
}

fn digit_str(d: u32) -> (r: &'static str)
    requires
        d < 10,
    ensures
        r@ == digit_text(d as nat),
{
    if d == 0 {
        "0"
    } else if d == 1 {
        "1"
    } else if d == 2 {
        "2"
    } else if d == 3 {
        "3"
    } else if d == 4 {
        "4"
    } else if d == 5 {
        "5"
    } else if d == 6 {
        "6"
    } else if d == 7 {
        "7"
    } else if d == 8 {
        "8"
    } else {
        "9"
    }
}

/// Appends `n` in decimal to `out`.
pub fn push_decimal(out: &mut String, n: u32)
    ensures
        final(out)@ == old(out)@ + decimal(n as nat),
    decreases n,
{
    if n >= 10 {
        push_decimal(out, n / 10);
    }
    out.append(digit_str(n % 10));
    assert(final(out)@ =~= old(out)@ + decimal(n as nat));
}

/// A field's text, or the placeholder when it is absent.
pub open spec fn or_unknown(f: Option<Seq<char>>) -> Seq<char> {
    match f {
        Some(s) => s,
        None => UNKNOWN@,
    }
}

/// The table row of one track: its title, artist, album, file name and play
/// count, then a form that deletes it by its identifier.
pub open spec fn row_html(t: TrackView) -> Seq<char> {
    ROW_OPEN@ + or_unknown(t.title) + CELL_BREAK@ + or_unknown(t.artist) + CELL_BREAK@
        + or_unknown(t.album) + CELL_BREAK@ + t.file_name + CELL_BREAK@ + decimal(
        t.play_count as nat,
    ) + ROW_FORM@ + t.id + ROW_CLOSE@
}

/// The rows of all tracks, in order.
pub open spec fn rows_html(ts: Seq<TrackView>) -> Seq<char>
    decreases ts.len(),
{
    if ts.len() == 0 {
        Seq::empty()
    } else {
        rows_html(ts.drop_last()) + row_html(ts.last())
    }
}

/// The library page listing the tracks `ts`.
pub open spec fn index_html(ts: Seq<TrackView>) -> Seq<char> {
    INDEX_HEAD@ + rows_html(ts) + INDEX_FOOT@
}

fn push_field(out: &mut String, f: &Option<String>)
    ensures
        final(out)@ == old(out)@ + or_unknown(f.deep_view()),
{
    match f {
        Some(s) => out.append(s.as_str()),
        None => out.append(UNKNOWN),
    }
}

fn push_row(out: &mut String, t: &Track)
    ensures
        final(out)@ == old(out)@ + row_html(t@),
{
    out.append(ROW_OPEN);
    push_field(out, &t.title);
    out.append(CELL_BREAK);
    push_field(out, &t.artist);
    out.append(CELL_BREAK);
    push_field(out, &t.album);
    out.append(CELL_BREAK);
    out.append(t.file_name.as_str());
    out.append(CELL_BREAK);
    push_decimal(out, t.play_count);
    out.append(ROW_FORM);
    out.append(t.id.as_str());
    out.append(ROW_CLOSE);
    assert(final(out)@ =~= old(out)@ + row_html(t@));
}

/// Renders the library page: the upload form, then one row per track in the
/// given order, each with a delete form.
pub fn render_index(tracks: &Vec<Track>) -> (r: String)
    ensures
        r@ == index_html(track_views(tracks@)),
{
    let mut html = String::from_str(INDEX_HEAD);
    let mut i: usize = 0;
    while i < tracks.len()
        invariant
            i <= tracks@.len(),
            html@ == INDEX_HEAD@ + rows_html(track_views(tracks@.subrange(0, i as int))),
        decreases tracks@.len() - i,
    {
        proof {
            assert(track_views(tracks@.subrange(0, i + 1)).drop_last() =~= track_views(
                tracks@.subrange(0, i as int),
            ));
        }
        push_row(&mut html, &tracks[i]);
        assert(html@ =~= INDEX_HEAD@ + rows_html(track_views(tracks@.subrange(0, i + 1))));
        i = i + 1;
    }
    assert(tracks@.subrange(0, tracks@.len() as int) =~= tracks@);
    html.append(INDEX_FOOT);
    html
}

/// The page at the root of the loopback listener.
pub fn render_stream_index() -> (r: String)
    ensures
        r@ == STREAM_PAGE@,
{
    String::from_str(STREAM_PAGE)
}

} // verus!
