//! An ordered playlist of tracks: transfers in and out, reordering, import
//! from a table and a media playlist, and export as a media playlist.
use vstd::prelude::*;
use crate::media::{m3u8_segments, parse_media_playlist, playlist_text, segment_views, write_playlist};
use crate::tabular::{data_records, read_table, tab_records, table_tracks, track_views};
use crate::track_metadata::{MediaSegment, SegmentView, TrackMetadata, TrackView};

verus! {

/// Relies on rand::random for the salt of a playlist's widget ids; nothing is
/// promised of the number it draws.
pub assume_specification<T>[ rand::random::<T> ]() -> (r: T)
    where
        rand::distributions::Standard: rand::distributions::Distribution<T>,
;

/// Why an import was abandoned, leaving the playlist as it was.
#[derive(Clone, Debug)]
pub enum ImportError {
    /// The table and the media playlist do not describe the same tracks.
    SegmentCountMismatch { rows: usize, segments: usize },
    /// The media playlist could not be parsed at all; the parser's message.
    MediaParse { message: String },
}

pub enum ImportErrorView {
    SegmentCountMismatch { rows: usize, segments: usize },
    MediaParse { message: Seq<char> },
}

impl View for ImportError {
    type V = ImportErrorView;

    open spec fn view(&self) -> ImportErrorView {
        match self {
            ImportError::SegmentCountMismatch { rows, segments } =>
                ImportErrorView::SegmentCountMismatch { rows: *rows, segments: *segments },
            ImportError::MediaParse { message } => ImportErrorView::MediaParse { message: message@ },
        }
    }
}

impl PartialEq for ImportError {
    fn eq(&self, o: &ImportError) -> (r: bool) {
        match (self, o) {
            (
                ImportError::SegmentCountMismatch { rows: a, segments: b },
                ImportError::SegmentCountMismatch { rows: c, segments: d },
            ) => *a == *c && *b == *d,
            (ImportError::MediaParse { message: m }, ImportError::MediaParse { message: n }) => *m == *n,
            _ => false,
        }
    }
}

impl vstd::std_specs::cmp::PartialEqSpecImpl for ImportError {
    open spec fn obeys_eq_spec() -> bool {
        true
    }

    open spec fn eq_spec(&self, o: &ImportError) -> bool {
        self@ == o@
    }
}

/// What an import that went through found: how many data records the table
/// held, how many of them became tracks, and whether the media file was a
/// master playlist, whose segments are not merged.
#[derive(Clone, Copy, Debug, PartialEq, Eq, Structural)]
pub struct ImportReport {
    pub records: usize,
    pub tracks: usize,
    pub master_ignored: bool,
}

pub struct Playlist {
    pub tracks: Vec<TrackMetadata>,
    /// Tells the playlist's widgets apart from another playlist's.
    pub ui_salt: u64,
}

impl View for Playlist {
    type V = Seq<TrackView>;

    open spec fn view(&self) -> Seq<TrackView> {
        track_views(self.tracks@)
    }
}

pub open spec fn has_id(s: Seq<TrackView>, id: u32) -> bool {
    exists|i: int| 0 <= i < s.len() && (#[trigger] s[i]).id == id
}

/// `i` is where the first track with this id stands.
pub open spec fn first_with_id(s: Seq<TrackView>, id: u32, i: int) -> bool {
    &&& 0 <= i < s.len()
    &&& s[i].id == id
    &&& forall|j: int| 0 <= j < i ==> (#[trigger] s[j]).id != id
}

/// Where the first track with this id stands, where there is one.
pub open spec fn first_of(s: Seq<TrackView>, id: u32) -> int {
    choose|i: int| first_with_id(s, id, i)
}

/// The tracks without the first one with this id.
pub open spec fn removed(s: Seq<TrackView>, id: u32) -> Seq<TrackView> {
    if has_id(s, id) { s.remove(first_of(s, id)) } else { s }
}

/// The first track with this id swapped with the one after it, if any.
pub open spec fn moved_down(s: Seq<TrackView>, id: u32) -> Seq<TrackView> {
    if has_id(s, id) && first_of(s, id) + 1 < s.len() {
        swapped(s, first_of(s, id), first_of(s, id) + 1)
    } else {
        s
    }
}

/// The first track with this id swapped with the one before it, if any.
pub open spec fn moved_up(s: Seq<TrackView>, id: u32) -> Seq<TrackView> {
    if has_id(s, id) && first_of(s, id) > 0 {
        swapped(s, first_of(s, id) - 1, first_of(s, id))
    } else {
        s
    }
}

/// Only one place holds the first track with an id.
pub proof fn lemma_first_of(s: Seq<TrackView>, id: u32, i: int)
    requires
        first_with_id(s, id, i),
    ensures
        first_of(s, id) == i,
        has_id(s, id),
{
    let k = first_of(s, id);
    assert(first_with_id(s, id, k));
    if k < i {
        assert(s[k].id == id);
    } else if k > i {
        assert(s[i].id == id);
    }
}

pub open spec fn ids_unique(s: Seq<TrackView>) -> bool {
    forall|i: int, j: int| 0 <= i < s.len() && 0 <= j < s.len() && i != j ==> (#[trigger] s[i]).id != (#[trigger] s[j]).id
}

pub open spec fn swapped(s: Seq<TrackView>, i: int, j: int) -> Seq<TrackView> {
    s.update(i, s[j]).update(j, s[i])
}

/// Each track with the segment at its own position.
pub open spec fn merged(rows: Seq<TrackView>, segs: Seq<SegmentView>) -> Seq<TrackView> {
    Seq::new(rows.len(), |i: int| TrackView { segment: segs[i], ..rows[i] })
}

pub open spec fn merge_result(rows: Seq<TrackView>, segs: Seq<SegmentView>) -> Result<Seq<TrackView>, ImportErrorView> {
    if rows.len() == segs.len() {
        Ok(merged(rows, segs))
    } else {
        Err(ImportErrorView::SegmentCountMismatch { rows: rows.len() as usize, segments: segs.len() as usize })
    }
}

/// The tracks that an import yields, from the table's bytes and the media
/// playlist's bytes; `None` stands for a file that was not chosen.
pub open spec fn import_result(table: Option<Seq<u8>>, media: Option<Seq<u8>>) -> Result<Seq<TrackView>, ImportErrorView> {
    let rows = match table {
        Some(t) => table_tracks(tab_records(t)),
        None => Seq::empty(),
    };
    match media {
        None => Ok(rows),
        Some(m) => match m3u8_segments(m) {
            Err(message) => Err(ImportErrorView::MediaParse { message }),
            Ok(None) => Ok(rows),
            Ok(Some(segs)) => merge_result(rows, segs),
        },
    }
}

/// The report of an import that went through.
pub open spec fn import_report(table: Option<Seq<u8>>, media: Option<Seq<u8>>) -> ImportReport {
    ImportReport {
        records: match table {
            Some(t) => data_records(tab_records(t)) as usize,
            None => 0,
        },
        tracks: match table {
            Some(t) => table_tracks(tab_records(t)).len() as usize,
            None => 0,
        },
        master_ignored: match media {
            Some(m) => m3u8_segments(m) == Ok::<Option<Seq<SegmentView>>, Seq<char>>(None),
            None => false,
        },
    }
}

/// Where the first track with `id` stands, if any.
fn position_of(tracks: &Vec<TrackMetadata>, id: u32) -> (r: Option<usize>)
    ensures
        r.is_none() == !has_id(track_views(tracks@), id),
        r.is_some() ==> first_with_id(track_views(tracks@), id, r.unwrap() as int),
{
    let ghost s = track_views(tracks@);
    let mut i: usize = 0;
    while i < tracks.len()
        invariant
            i <= tracks.len(),
            s == track_views(tracks@),
            forall|j: int| 0 <= j < i ==> (#[trigger] s[j]).id != id,
        decreases tracks.len() - i,
    {
        if tracks[i].id == id {
            assert(s[i as int].id == id);
            return Some(i);
        }
        i = i + 1;
    }
    None
}

/// Pairs each track with the segment at its position; the counts must agree.
pub fn merge_segments(tracks: Vec<TrackMetadata>, segments: Vec<MediaSegment>) -> (r: Result<Vec<TrackMetadata>, ImportError>)
    ensures
        match (r, merge_result(track_views(tracks@), segment_views(segments@))) {
            (Ok(v), Ok(m)) => track_views(v@) == m,
            (Err(e), Err(f)) => e@ == f,
            _ => false,
        },
{
    if tracks.len() != segments.len() {
        return Err(ImportError::SegmentCountMismatch { rows: tracks.len(), segments: segments.len() });
    }
    let ghost m = merged(track_views(tracks@), segment_views(segments@));
    let mut out: Vec<TrackMetadata> = Vec::new();
    let mut i: usize = 0;
    while i < tracks.len()
        invariant
            i <= tracks.len(),
            tracks.len() == segments.len(),
            m == merged(track_views(tracks@), segment_views(segments@)),
            track_views(out@) == m.subrange(0, i as int),
        decreases tracks.len() - i,
    {
        let t = tracks[i].duplicate().with_segment(segments[i].duplicate());
        assert(m[i as int] == t@);
        let ghost before = out@;
        out.push(t);
        assert(out@ == before.push(t));
        assert(track_views(out@) =~= track_views(before).push(t@));
        assert(track_views(out@) =~= m.subrange(0, i + 1));
        i = i + 1;
    }
    assert(m.subrange(0, tracks.len() as int) =~= m);
    Ok(out)
}

impl Playlist {
    pub fn new() -> (r: Playlist)
        ensures
            r@ == Seq::<TrackView>::empty(),
    {
        let tracks: Vec<TrackMetadata> = Vec::new();
        assert(track_views(tracks@) =~= Seq::<TrackView>::empty());
        Playlist { tracks, ui_salt: rand::random::<u64>() }
    }

    /// Removes and returns the first track with this id, keeping the order of
    /// the rest; without such a track nothing changes.
    pub fn maybe_remove_track(&mut self, track_id: u32) -> (r: Option<TrackMetadata>)
        ensures
            final(self).ui_salt == old(self).ui_salt,
            r.is_none() == !has_id(old(self)@, track_id),
            r.is_none() ==> final(self)@ == old(self)@,
            r.is_some() ==> exists|i: int| first_with_id(old(self)@, track_id, i)
                && r.unwrap()@ == old(self)@[i] && final(self)@ == old(self)@.remove(i),
            ids_unique(old(self)@) ==> ids_unique(final(self)@),
            final(self)@ == removed(old(self)@, track_id),
            r.is_some() ==> r.unwrap()@ == old(self)@[first_of(old(self)@, track_id)],
    {
        match position_of(&self.tracks, track_id) {
            Some(i) => {
                let ghost s = self@;
                proof {
                    lemma_first_of(s, track_id, i as int);
                }
                let t = self.tracks.remove(i);
                assert(self@ =~= s.remove(i as int));
                assert(first_with_id(s, track_id, i as int));
                assert(ids_unique(s) ==> ids_unique(self@)) by {
                    if ids_unique(s) {
                        assert forall|a: int, b: int| 0 <= a < self@.len() && 0 <= b < self@.len() && a != b
                            implies (#[trigger] self@[a]).id != (#[trigger] self@[b]).id by {
                            let a2 = if a < i { a } else { a + 1 };
                            let b2 = if b < i { b } else { b + 1 };
                            assert(self@[a] == s[a2]);
                            assert(self@[b] == s[b2]);
                        }
                    }
                }
                Some(t)
            },
            None => None,
        }
    }

    /// Appends a track at the end.
    pub fn add_track(&mut self, track: TrackMetadata)
        ensures
            final(self).ui_salt == old(self).ui_salt,
            final(self)@ == old(self)@.push(track@),
            ids_unique(old(self)@) && !has_id(old(self)@, track.id) ==> ids_unique(final(self)@),
    {
        let ghost s = self@;
        self.tracks.push(track);
        assert(self@ =~= s.push(track@));
    }

    /// Swaps the first track with the id of `track` with the one after it,
    /// where there is one.
    pub fn maybe_move_track_down(&mut self, track: &TrackMetadata)
        ensures
            final(self).ui_salt == old(self).ui_salt,
            forall|i: int| first_with_id(old(self)@, track.id, i) && i + 1 < old(self)@.len()
                ==> final(self)@ == swapped(old(self)@, i, i + 1),
            (forall|i: int| first_with_id(old(self)@, track.id, i) ==> i + 1 == old(self)@.len())
                ==> final(self)@ == old(self)@,
            final(self)@ == moved_down(old(self)@, track.id),
    {
        let ghost s = self@;
        match position_of(&self.tracks, track.id) {
            Some(i) => {
                proof {
                    lemma_first_of(s, track.id, i as int);
                }
                assert(i < self.tracks.len());
                if i + 1 < self.tracks.len() {
                    let t = self.tracks.remove(i + 1);
                    self.tracks.insert(i, t);
                    assert(self@ =~= swapped(s, i as int, i + 1));
                }
                assert forall|k: int| first_with_id(s, track.id, k) implies k == i by {
                    if k < i {
                        assert(s[k].id == track.id);
                    } else if k > i {
                        assert(s[i as int].id == track.id);
                    }
                }
            },
            None => {},
        }
    }

    /// Swaps the first track with the id of `track` with the one before it,
    /// where there is one.
    pub fn maybe_move_track_up(&mut self, track: &TrackMetadata)
        ensures
            final(self).ui_salt == old(self).ui_salt,
            forall|i: int| first_with_id(old(self)@, track.id, i) && i > 0
                ==> final(self)@ == swapped(old(self)@, i - 1, i),
            (forall|i: int| first_with_id(old(self)@, track.id, i) ==> i == 0)
                ==> final(self)@ == old(self)@,
            final(self)@ == moved_up(old(self)@, track.id),
    {
        let ghost s = self@;
        match position_of(&self.tracks, track.id) {
            Some(i) => {
                proof {
                    lemma_first_of(s, track.id, i as int);
                }
                if i > 0 {
                    let t = self.tracks.remove(i);
                    self.tracks.insert(i - 1, t);
                    assert(self@ =~= swapped(s, i - 1, i as int));
                }
                assert forall|k: int| first_with_id(s, track.id, k) implies k == i by {
                    if k < i {
                        assert(s[k].id == track.id);
                    } else if k > i {
                        assert(s[i as int].id == track.id);
                    }
                }
            },
            None => {},
        }
    }

    /// Replaces the tracks with those of a table, each merged with the media
    /// segment at its position. `None` stands for a file that was not chosen.
    /// A media playlist that does not parse, or whose segment count differs
    /// from the table's track count, abandons the import and leaves the
    /// tracks as they were.
    pub fn import(&mut self, table: Option<&[u8]>, media: Option<&[u8]>) -> (r: Result<ImportReport, ImportError>)
        ensures
            final(self).ui_salt == old(self).ui_salt,
            match import_result(
                match table { Some(t) => Some(t@), None => None },
                match media { Some(m) => Some(m@), None => None },
            ) {
                Ok(v) => final(self)@ == v && r == Ok::<ImportReport, ImportError>(import_report(
                    match table { Some(t) => Some(t@), None => None },
                    match media { Some(m) => Some(m@), None => None },
                )),
                Err(e) => r is Err && r->Err_0@ == e && final(self)@ == old(self)@,
            },
    {
        let (rows, records) = match table {
            Some(t) => read_table(t),
            None => (Vec::new(), 0),
        };
        assert(track_views(rows@) == match table {
            Some(t) => table_tracks(tab_records(t@)),
            None => Seq::<TrackView>::empty(),
        }) by {
            if table.is_none() {
                assert(track_views(rows@) =~= Seq::<TrackView>::empty());
            }
        }
        let tracks = rows.len();
        match media {
            None => {
                self.tracks = rows;
                Ok(ImportReport { records, tracks, master_ignored: false })
            },
            Some(m) => match parse_media_playlist(m) {
                Err(message) => Err(ImportError::MediaParse { message }),
                Ok(None) => {
                    self.tracks = rows;
                    Ok(ImportReport { records, tracks, master_ignored: true })
                },
                Ok(Some(segments)) => match merge_segments(rows, segments) {
                    Ok(v) => {
                        self.tracks = v;
                        Ok(ImportReport { records, tracks, master_ignored: false })
                    },
                    Err(e) => Err(e),
                },
            },
        }
    }

    /// Appends the tracks as a media playlist to `out`, in order.
    pub fn write_to(&self, out: &mut String)
        ensures
            final(out)@ == old(out)@ + playlist_text(self@),
    {
        write_playlist(&self.tracks, out);
    }

    /// The tracks as the text of a media playlist, ready to be saved.
    pub fn export(&self) -> (r: String)
        ensures
            r@ == playlist_text(self@),
    {
        let mut out = String::new();
        self.write_to(&mut out);
        out
    }
}

/// Importing a table and a media playlist with as many segments as the table
/// has tracks yields that many tracks, in the table's order, the segment at
/// each position merged into the track at that position.
pub proof fn lemma_import_merges_in_order(table: Seq<u8>, media: Seq<u8>)
    requires
        m3u8_segments(media) is Ok,
        m3u8_segments(media)->Ok_0 is Some,
        m3u8_segments(media)->Ok_0.unwrap().len() == table_tracks(tab_records(table)).len(),
    ensures
        import_result(Some(table), Some(media)) is Ok,
        import_result(Some(table), Some(media))->Ok_0.len() == table_tracks(tab_records(table)).len(),
        forall|i: int| 0 <= i < table_tracks(tab_records(table)).len() ==>
            #[trigger] import_result(Some(table), Some(media))->Ok_0[i] == (TrackView {
                segment: m3u8_segments(media)->Ok_0.unwrap()[i],
                ..table_tracks(tab_records(table))[i]
            }),
{
}

/// Importing a media playlist whose segment count differs from the table's
/// track count fails with both counts, and yields no tracks at all.
pub proof fn lemma_import_count_mismatch_fails(table: Seq<u8>, media: Seq<u8>)
    requires
        m3u8_segments(media) is Ok,
        m3u8_segments(media)->Ok_0 is Some,
        m3u8_segments(media)->Ok_0.unwrap().len() != table_tracks(tab_records(table)).len(),
    ensures
        import_result(Some(table), Some(media)) == Err::<Seq<TrackView>, ImportErrorView>(ImportErrorView::SegmentCountMismatch {
            rows: table_tracks(tab_records(table)).len() as usize,
            segments: m3u8_segments(media)->Ok_0.unwrap().len() as usize,
        }),
{
}

/// Removing the first track with an id and adding it back keeps the same
/// tracks, the others in their order and that one at the end.
pub proof fn lemma_remove_then_add(s: Seq<TrackView>, id: u32, i: int)
    requires
        first_with_id(s, id, i),
    ensures
        s.remove(i).push(s[i]).len() == s.len(),
        s.remove(i).push(s[i]).to_multiset() == s.to_multiset(),
        s.remove(i).push(s[i]).last() == s[i],
        s.remove(i).push(s[i]).drop_last() == s.remove(i),
{
    broadcast use vstd::seq_lib::group_to_multiset_ensures;
    assert(s.to_multiset().remove(s[i]).insert(s[i]) =~= s.to_multiset()) by {
        broadcast use vstd::multiset::group_multiset_axioms;
        assert(s.to_multiset().count(s[i]) > 0) by {
            assert(s.contains(s[i]));
        }
    }
    assert(s.remove(i).push(s[i]).drop_last() =~= s.remove(i));
}

/// Moving a track down swaps it with the one after it: the tracks before and
/// after the pair keep their places. With the second of three tracks, whose
/// id no other track shares, the order becomes first, third, second.
pub proof fn lemma_move_down_swaps_with_next(s: Seq<TrackView>, id: u32, i: int)
    requires
        first_with_id(s, id, i),
        i + 1 < s.len(),
    ensures
        moved_down(s, id).len() == s.len(),
        moved_down(s, id)[i + 1] == s[i],
        moved_down(s, id)[i] == s[i + 1],
        forall|j: int| 0 <= j < s.len() && j != i && j != i + 1 ==> #[trigger] moved_down(s, id)[j] == s[j],
        s.len() == 3 && i == 1 ==> moved_down(s, id) == seq![s[0], s[2], s[1]],
{
    lemma_first_of(s, id, i);
    if s.len() == 3 && i == 1 {
        assert(moved_down(s, id) =~= seq![s[0], s[2], s[1]]);
    }
}

/// A playlist that holds no track with an id is left as it is by moves.
pub proof fn lemma_move_without_track(s: Seq<TrackView>, id: u32)
    requires
        !has_id(s, id),
    ensures
        moved_down(s, id) == s,
        moved_up(s, id) == s,
        removed(s, id) == s,
{
}

} // verus!
