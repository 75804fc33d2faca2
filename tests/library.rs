use id3::TagLike;
use music_server::guard::{check_stream_id, contains_parent_token, is_mp3_name, resolve_stream_id};
use music_server::handlers::{
    check_delete_id, delete_reply, delete_target, find_entry, index_reply, missing_name_reply, plan_delete, redirect_to_index,
    save_failed_reply, stream_index_reply, upload_part_action, DeletePlan, PartAction,
};
use music_server::html::{push_decimal, render_index};
use music_server::lifecycle::{get_url, start_server, stop_server, LifecycleError, ServerControl};
use music_server::track::{
    get_all_tracks, get_tracks, read_tag, select_tag, track_from_file, track_from_tag, DirEntryInfo, TagFields,
    Track,
};

fn entry(name: &str, is_file: bool, data: Vec<u8>) -> DirEntryInfo {
    DirEntryInfo {
        name: name.to_string(),
        name_is_utf8: true,
        name_bytes: name.as_bytes().to_vec(),
        path: format!("/lib/music/{}", name),
        is_file,
        data,
    }
}

fn v2_tagged(title: &str, artist: &str) -> Vec<u8> {
    let mut tag = id3::Tag::new();
    tag.set_title(title);
    tag.set_artist(artist);
    let mut buf = Vec::new();
    tag.write_to(&mut buf, id3::Version::Id3v24).unwrap();
    buf.extend_from_slice(&[0xff, 0xfb, 0x90, 0x00]);
    buf
}

fn field(text: &str, len: usize) -> Vec<u8> {
    let mut b = text.as_bytes().to_vec();
    b.resize(len, 0);
    b
}

fn v1_tagged(title: &str, artist: &str, album: &str) -> Vec<u8> {
    let mut buf = vec![0u8; 200];
    buf.extend_from_slice(b"TAG");
    buf.extend(field(title, 30));
    buf.extend(field(artist, 30));
    buf.extend(field(album, 30));
    buf.extend(field("2020", 4));
    buf.extend(field("", 30));
    buf.push(0);
    buf
}

#[test]
fn parent_token_is_found_anywhere() {
    assert!(contains_parent_token(".."));
    assert!(contains_parent_token("../etc/passwd"));
    assert!(contains_parent_token("a..b.mp3"));
    assert!(!contains_parent_token("a.b.mp3"));
    assert!(!contains_parent_token(""));
    assert!(!contains_parent_token("."));
}

#[test]
fn mp3_suffix_in_either_case() {
    assert!(is_mp3_name("song.mp3"));
    assert!(is_mp3_name("SONG.MP3"));
    assert!(!is_mp3_name("song.Mp3"));
    assert!(!is_mp3_name("song.txt"));
    assert!(!is_mp3_name("mp3"));
}

#[test]
fn stream_id_is_decoded() {
    assert_eq!(resolve_stream_id("my%20song.mp3"), Some("my song.mp3".to_string()));
    assert_eq!(resolve_stream_id("plain.mp3"), Some("plain.mp3".to_string()));
    assert_eq!(resolve_stream_id("%E6%9B%B2.mp3"), Some("曲.mp3".to_string()));
}

#[test]
fn stream_rejects_parent_token_before_and_after_decoding() {
    assert_eq!(resolve_stream_id("..%2Fsecret"), None);
    assert_eq!(resolve_stream_id("%2E%2E%2Fsecret"), None);
    assert_eq!(resolve_stream_id("%2e."), None);
    assert_eq!(check_stream_id("x", Some("..".to_string())), None);
}

#[test]
fn stream_rejects_undecodable_id() {
    assert_eq!(resolve_stream_id("%FF.mp3"), None);
    assert_eq!(check_stream_id("a.mp3", None), None);
}

#[test]
fn delete_rejects_parent_token() {
    let es = vec![entry("a.mp3", true, vec![])];
    assert!(plan_delete(Some("../a.mp3".to_string()), &es) == DeletePlan::Invalid);
    let r = delete_reply(&DeletePlan::Invalid, true);
    assert_eq!(r.status, 400);
    assert_eq!(r.body, "無効なファイル名です");
}

#[test]
fn delete_rejects_parent_token_after_decoding() {
    let es = vec![entry("x.mp3", true, vec![])];
    assert!(plan_delete(Some("%2E%2E%2Fsecret.mp3".to_string()), &es) == DeletePlan::Invalid);
    assert!(plan_delete(Some(".%2E/x.mp3".to_string()), &es) == DeletePlan::Invalid);
    assert!(matches!(delete_target(Some("%2e%2e".to_string())), Err(DeletePlan::Invalid)));
    assert!(matches!(delete_target(Some("%FF.mp3".to_string())), Err(DeletePlan::Invalid)));
    assert!(matches!(check_delete_id("a.mp3".to_string(), Some("..".to_string())), Err(DeletePlan::Invalid)));
    assert_eq!(delete_target(Some("a%20b.mp3".to_string())).ok(), Some("a%20b.mp3".to_string()));
}

#[test]
fn stream_finds_only_listed_files() {
    let es = vec![entry("a.mp3", false, vec![]), entry("b.mp3", true, vec![]), entry("a.mp3", true, vec![])];
    assert_eq!(find_entry(&"a.mp3".to_string(), &es), Some(2));
    assert_eq!(find_entry(&"/etc/passwd".to_string(), &es), None);
    let mut raw = entry("z\u{fffd}.mp3", true, vec![]);
    raw.name_is_utf8 = false;
    raw.name_bytes = vec![b'z', 0x80];
    assert_eq!(find_entry(&"/7a80".to_string(), &vec![raw]), Some(0));
}

#[test]
fn delete_existing_then_again_is_not_found() {
    let es = vec![entry("dir.mp3", false, vec![]), entry("a.mp3", true, vec![]), entry("b.mp3", true, vec![])];
    let plan = plan_delete(Some("b.mp3".to_string()), &es);
    assert!(plan == DeletePlan::Remove(2));
    let r = delete_reply(&plan, true);
    assert_eq!(r.status, 302);
    assert_eq!(r.location, Some("/".to_string()));
    let after = vec![entry("dir.mp3", false, vec![]), entry("a.mp3", true, vec![])];
    let again = plan_delete(Some("b.mp3".to_string()), &after);
    assert!(again == DeletePlan::NotFound);
    let r = delete_reply(&again, false);
    assert_eq!(r.status, 404);
    assert_eq!(r.body, "指定されたファイルが見つかりませんでした");
}

#[test]
fn delete_ignores_directories_with_the_name() {
    let es = vec![entry("a.mp3", false, vec![])];
    assert!(plan_delete(Some("a.mp3".to_string()), &es) == DeletePlan::NotFound);
}

#[test]
fn delete_without_id_redirects() {
    let es = vec![entry("a.mp3", true, vec![])];
    let plan = plan_delete(None, &es);
    assert!(plan == DeletePlan::Skip);
    let r = delete_reply(&plan, false);
    assert_eq!(r.status, 302);
}

#[test]
fn delete_failure_is_internal_error() {
    let r = delete_reply(&DeletePlan::Remove(0), false);
    assert_eq!(r.status, 500);
    assert_eq!(r.body, "ファイルの削除に失敗しました");
}

#[test]
fn upload_mp3_then_listed() {
    match upload_part_action(Some("song.mp3".to_string())) {
        PartAction::Save(name) => {
            assert_eq!(name, "song.mp3");
            let es = vec![entry(&name, true, vec![1, 2, 3])];
            let tracks = get_all_tracks(&es);
            assert!(tracks.iter().any(|t| t.file_name == "song.mp3"));
        }
        _ => panic!("song.mp3 must be saved"),
    }
}

#[test]
fn upload_txt_is_skipped() {
    assert!(matches!(upload_part_action(Some("song.txt".to_string())), PartAction::Skip));
    let es = vec![entry("song.txt", true, vec![])];
    assert!(get_all_tracks(&es).is_empty());
}

#[test]
fn upload_path_names_are_skipped() {
    assert!(matches!(upload_part_action(Some("../song.mp3".to_string())), PartAction::Skip));
    assert!(matches!(upload_part_action(Some("/tmp/song.mp3".to_string())), PartAction::Skip));
    assert!(matches!(upload_part_action(Some("a\\song.mp3".to_string())), PartAction::Skip));
}

#[test]
fn upload_without_name_fails() {
    assert!(matches!(upload_part_action(None), PartAction::MissingName));
    let r = missing_name_reply();
    assert_eq!(r.status, 500);
    assert_eq!(r.body, "ファイルが見つかりません");
}

#[test]
fn upload_write_failure_reply() {
    let r = save_failed_reply("disk full");
    assert_eq!(r.status, 500);
    assert_eq!(r.body, "ファイルの保存に失敗しました: disk full");
}

#[test]
fn redirect_goes_home() {
    let r = redirect_to_index();
    assert_eq!(r.status, 302);
    assert_eq!(r.location, Some("/".to_string()));
    assert_eq!(r.body, "");
}

#[test]
fn v2_tag_round_trip() {
    let t = track_from_file("a.mp3", "/lib/music/a.mp3", &v2_tagged("A", "B"));
    assert_eq!(t.title, Some("A".to_string()));
    assert_eq!(t.artist, Some("B".to_string()));
    assert_eq!(t.album, None);
    assert_eq!(t.id, "a.mp3");
    assert_eq!(t.file_name, "a.mp3");
    assert_eq!(t.path, "/lib/music/a.mp3");
    assert_eq!(t.play_count, 0);
}

#[test]
fn v1_tag_is_the_fallback() {
    let t = track_from_file("b.mp3", "/p/b.mp3", &v1_tagged("Old", "Band", ""));
    assert_eq!(t.title, Some("Old".to_string()));
    assert_eq!(t.artist, Some("Band".to_string()));
    assert_eq!(t.album, None);
}

#[test]
fn untagged_file_has_absent_fields() {
    let t = track_from_file("c.mp3", "/p/c.mp3", &vec![0xff, 0xfb, 0x90, 0x00, 1, 2, 3]);
    assert_eq!(t.title, None);
    assert_eq!(t.artist, None);
    assert_eq!(t.album, None);
    let tag = read_tag(&vec![]);
    assert!(tag.title.is_none() && tag.artist.is_none() && tag.album.is_none());
}

#[test]
fn scan_keeps_only_mp3_files_in_order() {
    let es = vec![
        entry("b.MP3", true, vec![]),
        entry("notes.txt", true, vec![]),
        entry("sub.mp3", false, vec![]),
        entry("a.mp3", true, v2_tagged("A", "B")),
    ];
    let tracks = get_all_tracks(&es);
    let names: Vec<&str> = tracks.iter().map(|t| t.file_name.as_str()).collect();
    assert_eq!(names, vec!["b.MP3", "a.mp3"]);
    assert_eq!(tracks[1].title, Some("A".to_string()));
    assert_eq!(get_tracks(&es).tracks.len(), 2);
}

#[test]
fn scan_of_empty_listing_is_empty() {
    assert!(get_all_tracks(&vec![]).is_empty());
}

#[test]
fn non_utf8_names_get_distinct_ids() {
    let mut e = entry("x\u{fffd}.mp3", true, vec![]);
    e.name_is_utf8 = false;
    e.name_bytes = vec![b'x', 0xff, b'.', b'm', b'p', b'3'];
    let mut f = entry("y\u{fffd}.mp3", true, vec![]);
    f.name_is_utf8 = false;
    f.name_bytes = vec![b'y', 0xfe, b'.', b'm', b'p', b'3'];
    let tracks = get_all_tracks(&vec![e, f]);
    assert_eq!(tracks[0].file_name, "/78ff2e6d7033");
    assert_eq!(tracks[0].id, "/78ff2e6d7033");
    assert_eq!(tracks[1].id, "/79fe2e6d7033");
    assert_ne!(tracks[0].id, tracks[1].id);
}

#[test]
fn scan_twice_gives_same_tracks() {
    let es = vec![entry("a.mp3", true, v2_tagged("A", "B")), entry("b.mp3", true, vec![])];
    let reversed = vec![entry("b.mp3", true, vec![]), entry("a.mp3", true, v2_tagged("A", "B"))];
    let key = |t: &Track| (t.id.clone(), t.title.clone(), t.artist.clone(), t.album.clone());
    let mut first: Vec<_> = get_all_tracks(&es).iter().map(key).collect();
    let mut second: Vec<_> = get_all_tracks(&reversed).iter().map(key).collect();
    first.sort();
    second.sort();
    assert_eq!(first, second);
}

#[test]
fn decimal_text() {
    let mut s = String::from("n=");
    push_decimal(&mut s, 0);
    assert_eq!(s, "n=0");
    let mut s = String::new();
    push_decimal(&mut s, 4294967295);
    assert_eq!(s, "4294967295");
    let mut s = String::new();
    push_decimal(&mut s, 10);
    assert_eq!(s, "10");
}

#[test]
fn index_page_lists_tracks() {
    let t = track_from_file("a.mp3", "/p/a.mp3", &v2_tagged("A", "B"));
    let html = render_index(&vec![t]);
    assert!(html.contains("<td>A</td>"));
    assert!(html.contains("<td>B</td>"));
    assert!(html.contains("<td>不明</td>"));
    assert!(html.contains("<td>a.mp3</td>"));
    assert!(html.contains("<td>0</td>"));
    assert!(html.contains(r#"name="file_id" value="a.mp3""#));
    assert!(html.contains("<!DOCTYPE html>"));
    assert!(html.trim_end().ends_with("</html>"));
    let r = index_reply(&vec![]);
    assert_eq!(r.status, 200);
    assert_eq!(r.content_type, Some("text/html; charset=utf-8".to_string()));
    assert!(!r.body.contains("<tr>\n                        <td>"));
}

#[test]
fn stream_index_page() {
    let r = stream_index_reply();
    assert_eq!(r.status, 200);
    assert!(r.body.contains("音楽プレイヤーストリーミング"));
}

#[test]
fn start_twice_is_already_running() {
    let mut ctl: ServerControl<u8> = ServerControl::new();
    assert!(start_server(&mut ctl, || Ok(("192.168.1.5:3030".to_string(), 7u8))).is_ok());
    let mut called = false;
    let r = start_server(&mut ctl, || {
        called = true;
        Ok(("10.0.0.1:3030".to_string(), 8u8))
    });
    assert!(matches!(r, Err(LifecycleError::AlreadyRunning)));
    assert!(!called);
    assert_eq!(get_url(&ctl).ok(), Some("http://192.168.1.5:3030".to_string()));
}

#[test]
fn stop_when_stopped_is_not_running() {
    let mut ctl: ServerControl<u8> = ServerControl::new();
    let r = stop_server(&mut ctl);
    assert!(matches!(r, Err(LifecycleError::NotRunning)));
    assert!(!ctl.is_running());
    assert_eq!(r.err().unwrap().message(), "Server is not running");
}

#[test]
fn url_follows_start_and_stop() {
    let mut ctl: ServerControl<u8> = ServerControl::new();
    assert!(matches!(get_url(&ctl), Err(LifecycleError::NotRunning)));
    start_server(&mut ctl, || Ok(("192.168.0.2:3030".to_string(), 3u8))).unwrap();
    assert_eq!(get_url(&ctl).ok(), Some("http://192.168.0.2:3030".to_string()));
    assert_eq!(stop_server(&mut ctl).ok(), Some(3u8));
    assert!(matches!(get_url(&ctl), Err(LifecycleError::NotRunning)));
}

#[test]
fn failed_launch_stays_stopped() {
    let mut ctl: ServerControl<u8> = ServerControl::new();
    let r = start_server(&mut ctl, || Err("no network".to_string()));
    match r {
        Err(e) => assert_eq!(e.message(), "no network"),
        Ok(()) => panic!("launch failed"),
    }
    assert!(!ctl.is_running());
    assert_eq!(LifecycleError::AlreadyRunning.message(), "Server is already running");
}

fn fields(title: Option<&str>, artist: Option<&str>, album: Option<&str>) -> TagFields {
    TagFields {
        title: title.map(|s| s.to_string()),
        artist: artist.map(|s| s.to_string()),
        album: album.map(|s| s.to_string()),
    }
}

#[test]
fn select_tag_prefers_modern_format() {
    let t = select_tag(Some(fields(Some("new"), None, None)), Some(fields(Some("old"), Some("x"), Some("y"))));
    assert_eq!(t.title, Some("new".to_string()));
    assert_eq!(t.artist, None);
    let t = select_tag(None, Some(fields(Some("old"), Some("x"), Some("y"))));
    assert_eq!(t.title, Some("old".to_string()));
    assert_eq!(t.album, Some("y".to_string()));
    let t = select_tag(None, None);
    assert!(t.title.is_none() && t.artist.is_none() && t.album.is_none());
}

#[test]
fn empty_tag_fields_become_absent() {
    let t = track_from_tag("x.mp3", "/p/x.mp3", fields(Some(""), Some("B"), Some("")));
    assert_eq!(t.title, None);
    assert_eq!(t.artist, Some("B".to_string()));
    assert_eq!(t.album, None);
    assert_eq!(t.id, "x.mp3");
    assert_eq!(t.play_count, 0);
}
