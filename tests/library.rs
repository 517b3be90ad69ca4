use playlists::coordinator::{App, FrameInput};
use playlists::playlist::{ImportError, ImportReport, Playlist};
use playlists::tabular::parse_table;
use playlists::track_metadata::{Rgb, TableFields, TrackMetadata};

const HEADER: &str = "#\tTrack Title\tArtist\tBPM\tKey\tTime\tMessage\tDate Added\tGenre\tMy Tag\n";

fn table(rows: &[&str]) -> Vec<u8> {
    let mut s = String::from(HEADER);
    for r in rows {
        s.push_str(r);
        s.push('\n');
    }
    s.into_bytes()
}

fn three_rows() -> Vec<u8> {
    table(&[
        "1\tAlpha\tAnn\t120\t8A\t3:00\thi\t2020\tHouse\tx",
        "2\tBeta\tBob\t124\t9A\t4:00\t\t2021\tTechno\ty",
        "3\tGamma\tCid\t128\t11B\t5:00\t\t2022\tDisco\tz",
    ])
}

const THREE_SEGMENTS: &str =
    "#EXTM3U\n#EXTINF:120.5,First\n/music/a.mp3\n#EXTINF:200,\n/music/b.mp3\n#EXTINF:99.25,Third\n/music/c.mp3\n";

fn track(id: u32, key: &str) -> TrackMetadata {
    TrackMetadata::new(
        id,
        TableFields {
            title: format!("t{}", id),
            artist: String::from("a"),
            bpm: String::from("120"),
            key: String::from(key),
            time: String::from("1:00"),
            message: String::new(),
            date_added: String::new(),
            genre: String::new(),
            my_tag: String::new(),
        },
    )
}

fn ids(p: &Playlist) -> Vec<u32> {
    p.tracks.iter().map(|t| t.id).collect()
}

#[test]
fn table_rows_become_tracks() {
    let ts = parse_table(&three_rows());
    assert_eq!(ts.len(), 3);
    assert_eq!(ts[0].id, 1);
    assert_eq!(ts[0].title, "Alpha");
    assert_eq!(ts[0].artist, "Ann");
    assert_eq!(ts[0].bpm, "120");
    assert_eq!(ts[0].key, "8A");
    assert_eq!(ts[0].time, "3:00");
    assert_eq!(ts[0].message, "hi");
    assert_eq!(ts[0].date_added, "2020");
    assert_eq!(ts[0].genre, "House");
    assert_eq!(ts[0].my_tag, "x");
    assert_eq!(ts[2].key, "11B");
    assert_eq!(ts[1].media_segment.uri, "");
    assert_eq!(ts[1].media_segment.duration, "0");
    assert_eq!(ts[1].media_segment.title, None);
}

#[test]
fn bad_rows_are_skipped() {
    let data = table(&[
        "1\tAlpha\tAnn\t120\t8A\t3:00\t\t\t\t",
        "x\tBad\tId\t120\t8A\t3:00\t\t\t\t",
        "2\tShort",
        "0x10\tHex\tId\t120\t8A\t3:00\t\t\t\t",
    ]);
    let ts = parse_table(&data);
    assert_eq!(ts.iter().map(|t| t.id).collect::<Vec<_>>(), vec![1, 16]);
}

#[test]
fn columns_are_found_by_name_and_extra_ones_ignored() {
    let data = b"Extra\tMy Tag\tGenre\tDate Added\tMessage\tTime\tKey\tBPM\tArtist\tTrack Title\t#\nq\ttag\tg\td\tm\t2:00\t5B\t99\tEve\tSong\t7\n";
    let ts = parse_table(data);
    assert_eq!(ts.len(), 1);
    assert_eq!(ts[0].id, 7);
    assert_eq!(ts[0].title, "Song");
    assert_eq!(ts[0].key, "5B");
    assert_eq!(ts[0].my_tag, "tag");
}

#[test]
fn missing_or_repeated_column_yields_nothing() {
    let missing = b"#\tTrack Title\n1\tA\n";
    assert_eq!(parse_table(missing).len(), 0);
    let repeated = b"#\tTrack Title\tArtist\tBPM\tKey\tTime\tMessage\tDate Added\tGenre\tMy Tag\tKey\n1\tA\tB\t1\t8A\t1\t\t\t\t\t9A\n";
    assert_eq!(parse_table(repeated).len(), 0);
    assert_eq!(parse_table(b"").len(), 0);
}

#[test]
fn import_merges_segments_in_order() {
    let mut p = Playlist::new();
    let data = three_rows();
    assert_eq!(
        p.import(Some(&data), Some(THREE_SEGMENTS.as_bytes())),
        Ok(ImportReport { records: 3, tracks: 3, master_ignored: false })
    );
    assert_eq!(ids(&p), vec![1, 2, 3]);
    assert_eq!(p.tracks[0].media_segment.uri, "/music/a.mp3");
    assert_eq!(p.tracks[0].media_segment.duration, "120.5");
    assert_eq!(p.tracks[0].media_segment.title, Some(String::from("First")));
    assert_eq!(p.tracks[1].media_segment.uri, "/music/b.mp3");
    assert_eq!(p.tracks[1].media_segment.duration, "200");
    assert_eq!(p.tracks[1].media_segment.title, None);
    assert_eq!(p.tracks[2].media_segment.duration, "99.25");
    assert_eq!(p.tracks[2].title, "Gamma");
}

#[test]
fn import_with_count_mismatch_fails_and_keeps_tracks() {
    let mut p = Playlist::new();
    p.add_track(track(9, "1A"));
    let data = table(&["1\tAlpha\tAnn\t120\t8A\t3:00\t\t\t\t"]);
    let r = p.import(Some(&data), Some(THREE_SEGMENTS.as_bytes()));
    assert_eq!(r, Err(ImportError::SegmentCountMismatch { rows: 1, segments: 3 }));
    assert_eq!(ids(&p), vec![9]);
}

#[test]
fn import_of_unparsable_media_fails() {
    let mut p = Playlist::new();
    let data = three_rows();
    let r = p.import(Some(&data), Some(b"not a playlist"));
    match r {
        Err(ImportError::MediaParse { message }) => assert!(!message.is_empty()),
        other => panic!("expected a parse error, got {:?}", other),
    }
    assert!(p.tracks.is_empty());
}

#[test]
fn import_without_media_keeps_rows() {
    let mut p = Playlist::new();
    p.add_track(track(9, "1A"));
    let data = three_rows();
    assert_eq!(p.import(Some(&data), None), Ok(ImportReport { records: 3, tracks: 3, master_ignored: false }));
    assert_eq!(ids(&p), vec![1, 2, 3]);
    assert_eq!(p.tracks[0].media_segment.uri, "");
    assert_eq!(p.import(None, None), Ok(ImportReport { records: 0, tracks: 0, master_ignored: false }));
    assert!(p.tracks.is_empty());
}

#[test]
fn import_of_master_playlist_keeps_rows() {
    let mut p = Playlist::new();
    let data = three_rows();
    let master = b"#EXTM3U\n#EXT-X-STREAM-INF:BANDWIDTH=150000,RESOLUTION=416x234\nlow/index.m3u8\n";
    assert_eq!(p.import(Some(&data), Some(master)), Ok(ImportReport { records: 3, tracks: 3, master_ignored: true }));
    assert_eq!(ids(&p), vec![1, 2, 3]);
    assert_eq!(p.tracks[2].media_segment.duration, "0");
}

#[test]
fn export_writes_media_playlist() {
    let mut p = Playlist::new();
    let data = three_rows();
    p.import(Some(&data), Some(THREE_SEGMENTS.as_bytes())).unwrap();
    assert_eq!(p.export(), THREE_SEGMENTS);
    let mut out = String::from("x");
    p.write_to(&mut out);
    assert_eq!(out, format!("x{}", THREE_SEGMENTS));
    assert_eq!(Playlist::new().export(), "#EXTM3U\n");
}

#[test]
fn export_then_import_keeps_segments() {
    let mut p = Playlist::new();
    let data = three_rows();
    p.import(Some(&data), Some(b"#EXTM3U\n#EXTINF:0.1,\nx.wav\n#EXTINF:3.3333,T\ny.wav\n#EXTINF:100.0,\nz.wav\n")).unwrap();
    let text = p.export();
    let mut q = Playlist::new();
    q.import(Some(&data), Some(text.as_bytes())).unwrap();
    for i in 0..3 {
        assert_eq!(q.tracks[i].media_segment.uri, p.tracks[i].media_segment.uri);
        assert_eq!(q.tracks[i].media_segment.duration, p.tracks[i].media_segment.duration);
        assert_eq!(q.tracks[i].media_segment.title, p.tracks[i].media_segment.title);
    }
    let first: f32 = q.tracks[0].media_segment.duration.parse().unwrap();
    assert_eq!(first, 0.1f32);
    assert_eq!(q.tracks[2].media_segment.duration, "100");
}

#[test]
fn remove_then_add_moves_track_to_end() {
    let mut p = Playlist::new();
    for id in [1, 2, 3, 4] {
        p.add_track(track(id, "1A"));
    }
    let t = p.maybe_remove_track(2).unwrap();
    assert_eq!(t.id, 2);
    assert_eq!(ids(&p), vec![1, 3, 4]);
    p.add_track(t);
    assert_eq!(ids(&p), vec![1, 3, 4, 2]);
}

#[test]
fn removing_absent_id_changes_nothing() {
    let mut p = Playlist::new();
    p.add_track(track(1, "1A"));
    assert!(p.maybe_remove_track(5).is_none());
    assert_eq!(ids(&p), vec![1]);
    assert!(Playlist::new().maybe_remove_track(0).is_none());
}

#[test]
fn moving_up_and_down() {
    let mut p = Playlist::new();
    for id in [1, 2, 3] {
        p.add_track(track(id, "1A"));
    }
    p.maybe_move_track_down(&track(3, "1A"));
    assert_eq!(ids(&p), vec![1, 2, 3]);
    p.maybe_move_track_up(&track(1, "1A"));
    assert_eq!(ids(&p), vec![1, 2, 3]);
    p.maybe_move_track_down(&track(1, "1A"));
    assert_eq!(ids(&p), vec![2, 1, 3]);
    p.maybe_move_track_up(&track(3, "1A"));
    assert_eq!(ids(&p), vec![2, 3, 1]);
    p.maybe_move_track_up(&track(8, "1A"));
    assert_eq!(ids(&p), vec![2, 3, 1]);
}

#[test]
fn row_clicks_toggle_selection() {
    let mut sel: Option<TrackMetadata> = None;
    Playlist::toggle_row_selection(&mut sel, track(1, "1A"));
    assert_eq!(sel.as_ref().map(|t| t.id), Some(1));
    Playlist::toggle_row_selection(&mut sel, track(2, "1A"));
    assert_eq!(sel.as_ref().map(|t| t.id), Some(2));
    Playlist::toggle_row_selection(&mut sel, track(2, "1A"));
    assert!(sel.is_none());
}

#[test]
fn key_cells_are_coloured_beside_the_selection() {
    let sel = Some(track(1, "8A"));
    assert_eq!(Playlist::key_cell_color(&sel, &track(2, "9A")), Some(Rgb { r: 19, g: 128, b: 11 }));
    assert_eq!(Playlist::key_cell_color(&sel, &track(3, "8A")), Some(Rgb { r: 11, g: 75, b: 128 }));
    assert_eq!(Playlist::key_cell_color(&sel, &track(4, "9B")), Some(Rgb { r: 143, g: 119, b: 11 }));
    assert_eq!(Playlist::key_cell_color(&sel, &track(5, "4A")), None);
    assert_eq!(Playlist::key_cell_color(&sel, &track(6, "??")), None);
    assert_eq!(Playlist::key_cell_color(&sel, &track(1, "8A")), None);
    assert_eq!(Playlist::key_cell_color(&None, &track(2, "9A")), None);
}

#[test]
fn selected_track_moves_down_after_import() {
    let mut app = App::new();
    let data = three_rows();
    app.import_table.import(Some(&data), Some(THREE_SEGMENTS.as_bytes())).unwrap();
    assert_eq!(ids(&app.import_table), vec![1, 2, 3]);
    let second = app.import_table.tracks[1].duplicate();
    app.click_row(&second);
    app.move_selected_down();
    assert_eq!(ids(&app.import_table), vec![1, 3, 2]);
    assert_eq!(app.import_table.tracks[2].media_segment.uri, "/music/b.mp3");
    app.move_selected_up();
    app.move_selected_up();
    assert_eq!(ids(&app.import_table), vec![2, 1, 3]);
}

#[test]
fn transfer_moves_between_playlists() {
    let mut app = App::new();
    for id in [1, 2, 3] {
        app.import_table.add_track(track(id, "1A"));
    }
    app.click_row(&track(2, "1A"));
    app.transfer_selected();
    assert_eq!(ids(&app.import_table), vec![1, 3]);
    assert_eq!(ids(&app.export_table), vec![2]);
    app.move_selected_down();
    assert_eq!(ids(&app.export_table), vec![2]);
    app.transfer_selected();
    assert_eq!(ids(&app.import_table), vec![1, 3, 2]);
    assert!(app.export_table.tracks.is_empty());
    app.click_row(&track(2, "1A"));
    app.transfer_selected();
    assert_eq!(ids(&app.import_table), vec![1, 3, 2]);
}

#[test]
fn import_report_counts_skipped_rows() {
    let mut p = Playlist::new();
    let data = table(&[
        "1\tAlpha\tAnn\t120\t8A\t3:00\t\t\t\t",
        "x\tBad\tId\t120\t8A\t3:00\t\t\t\t",
        "2\tShort",
    ]);
    assert_eq!(p.import(Some(&data), None), Ok(ImportReport { records: 3, tracks: 1, master_ignored: false }));
    assert_eq!(ids(&p), vec![1]);
}

fn frame() -> FrameInput {
    FrameInput { arrow_down: false, arrow_up: false, space: false, stop: false, play: false }
}

#[test]
fn down_arrow_frame_moves_selected_track() {
    let mut app = App::new();
    let data = three_rows();
    app.import_table.import(Some(&data), Some(THREE_SEGMENTS.as_bytes())).unwrap();
    let second = app.import_table.tracks[1].duplicate();
    app.click_row(&second);
    let actions = app.update(FrameInput { arrow_down: true, ..frame() });
    assert_eq!(actions.len(), 3);
    assert_eq!(ids(&app.import_table), vec![1, 3, 2]);
    assert!(app.export_table.tracks.is_empty());
    assert_eq!(app.selected_track.as_ref().map(|t| t.id), Some(2));
    assert_eq!(app.player.track.as_ref().map(|t| t.id), Some(2));
    app.update(FrameInput { arrow_up: true, ..frame() });
    assert_eq!(ids(&app.import_table), vec![1, 2, 3]);
    app.update(FrameInput { space: true, ..frame() });
    assert_eq!(ids(&app.import_table), vec![1, 3]);
    assert_eq!(ids(&app.export_table), vec![2]);
}
