//! One track of the library, and how two tracks' harmonic keys match.
use vstd::prelude::*;
use crate::numeral::{i32_value, parse_i32};

verus! {

/// A playable unit of a media playlist: where the audio is, how long it runs
/// (seconds, as the decimal text of the playlist), and an optional title.
pub struct MediaSegment {
    pub uri: String,
    pub duration: String,
    pub title: Option<String>,
}

pub struct SegmentView {
    pub uri: Seq<char>,
    pub duration: Seq<char>,
    pub title: Option<Seq<char>>,
}

pub open spec fn opt_text(o: Option<String>) -> Option<Seq<char>> {
    match o {
        Some(s) => Some(s@),
        None => None,
    }
}

impl View for MediaSegment {
    type V = SegmentView;

    open spec fn view(&self) -> SegmentView {
        SegmentView { uri: self.uri@, duration: self.duration@, title: opt_text(self.title) }
    }
}

/// The segment of a track that no media playlist has been merged into yet.
pub open spec fn empty_segment() -> SegmentView {
    SegmentView { uri: Seq::empty(), duration: "0"@, title: None }
}

fn clone_opt_text(o: &Option<String>) -> (r: Option<String>)
    ensures
        opt_text(r) == opt_text(*o),
{
    match o {
        Some(s) => Some(s.clone()),
        None => None,
    }
}

impl MediaSegment {
    pub fn empty() -> (r: MediaSegment)
        ensures
            r@ == empty_segment(),
    {
        MediaSegment { uri: String::new(), duration: String::from_str("0"), title: None }
    }

    pub fn duplicate(&self) -> (r: MediaSegment)
        ensures
            r@ == self@,
    {
        MediaSegment {
            uri: self.uri.clone(),
            duration: self.duration.clone(),
            title: clone_opt_text(&self.title),
        }
    }
}

impl Default for MediaSegment {
    fn default() -> (r: MediaSegment)
        ensures
            r@ == empty_segment(),
    {
        MediaSegment::empty()
    }
}

/// One row of the imported table, merged with one media segment.
pub struct TrackMetadata {
    pub id: u32,
    pub title: String,
    pub artist: String,
    pub bpm: String,
    pub key: String,
    pub time: String,
    pub message: String,
    pub date_added: String,
    pub genre: String,
    pub my_tag: String,
    pub media_segment: MediaSegment,
}

pub struct TrackView {
    pub id: u32,
    pub title: Seq<char>,
    pub artist: Seq<char>,
    pub bpm: Seq<char>,
    pub key: Seq<char>,
    pub time: Seq<char>,
    pub message: Seq<char>,
    pub date_added: Seq<char>,
    pub genre: Seq<char>,
    pub my_tag: Seq<char>,
    pub segment: SegmentView,
}

impl View for TrackMetadata {
    type V = TrackView;

    open spec fn view(&self) -> TrackView {
        TrackView {
            id: self.id,
            title: self.title@,
            artist: self.artist@,
            bpm: self.bpm@,
            key: self.key@,
            time: self.time@,
            message: self.message@,
            date_added: self.date_added@,
            genre: self.genre@,
            my_tag: self.my_tag@,
            segment: self.media_segment@,
        }
    }
}

/// The table fields of a track, in the table's column order.
pub struct TableFields {
    pub title: String,
    pub artist: String,
    pub bpm: String,
    pub key: String,
    pub time: String,
    pub message: String,
    pub date_added: String,
    pub genre: String,
    pub my_tag: String,
}

impl TrackMetadata {
    /// A track as a table row describes it, with no media segment yet.
    pub fn new(id: u32, f: TableFields) -> (r: TrackMetadata)
        ensures
            r@ == (TrackView {
                id,
                title: f.title@,
                artist: f.artist@,
                bpm: f.bpm@,
                key: f.key@,
                time: f.time@,
                message: f.message@,
                date_added: f.date_added@,
                genre: f.genre@,
                my_tag: f.my_tag@,
                segment: empty_segment(),
            }),
    {
        TrackMetadata {
            id,
            title: f.title,
            artist: f.artist,
            bpm: f.bpm,
            key: f.key,
            time: f.time,
            message: f.message,
            date_added: f.date_added,
            genre: f.genre,
            my_tag: f.my_tag,
            media_segment: MediaSegment::empty(),
        }
    }

    pub fn duplicate(&self) -> (r: TrackMetadata)
        ensures
            r@ == self@,
    {
        TrackMetadata {
            id: self.id,
            title: self.title.clone(),
            artist: self.artist.clone(),
            bpm: self.bpm.clone(),
            key: self.key.clone(),
            time: self.time.clone(),
            message: self.message.clone(),
            date_added: self.date_added.clone(),
            genre: self.genre.clone(),
            my_tag: self.my_tag.clone(),
            media_segment: self.media_segment.duplicate(),
        }
    }

    /// The same track with `segment` in place of its media segment.
    pub fn with_segment(self, segment: MediaSegment) -> (r: TrackMetadata)
        ensures
            r@ == (TrackView { segment: segment@, ..self@ }),
    {
        TrackMetadata { media_segment: segment, ..self }
    }
}

#[derive(Clone, Copy, Debug, PartialEq, Eq, Structural)]
pub enum KeyCompareResult {
    PerfectMatch,
    Compatible,
    MaybeCompatible,
    Incompatible,
}

/// The class of two different keys whose numerals lie `distance` apart.
pub open spec fn class_of(distance: int, same_mode: bool) -> KeyCompareResult {
    if distance == 0 {
        KeyCompareResult::Compatible
    } else if distance == 1 || distance == 2 {
        if same_mode { KeyCompareResult::Compatible } else { KeyCompareResult::MaybeCompatible }
    } else if distance == 3 || distance == 5 || distance == 7 {
        if same_mode { KeyCompareResult::MaybeCompatible } else { KeyCompareResult::Incompatible }
    } else {
        KeyCompareResult::Incompatible
    }
}

pub open spec fn abs(x: int) -> int {
    if x < 0 { -x } else { x }
}

/// How two Camelot keys (a numeral, then one mode letter) match: `None` where
/// the labels differ and a numeral is not an integer.
pub open spec fn key_class(a: Seq<char>, b: Seq<char>) -> Option<KeyCompareResult> {
    if a == b {
        Some(KeyCompareResult::PerfectMatch)
    } else if a.len() == 0 || b.len() == 0 {
        None
    } else {
        match (i32_value(a.drop_last()), i32_value(b.drop_last())) {
            (Some(x), Some(y)) => Some(class_of(abs(x - y), a.last() == b.last())),
            _ => None,
        }
    }
}

/// Compares keys in Camelot notation. The numerals are not taken round the
/// wheel: 1 and 12 lie eleven apart.
pub fn compare_keys(a: &str, b: &str) -> (r: Result<KeyCompareResult, &'static str>)
    ensures
        r.is_ok() == key_class(a@, b@).is_some(),
        r.is_ok() ==> r.unwrap() == key_class(a@, b@).unwrap(),
{
    let sa = String::from_str(a);
    let sb = String::from_str(b);
    if sa == sb {
        return Ok(KeyCompareResult::PerfectMatch);
    }
    let la = a.unicode_len();
    let lb = b.unicode_len();
    if la == 0 || lb == 0 {
        return Err("empty key");
    }
    let a_key = a.substring_char(0, la - 1);
    let b_key = b.substring_char(0, lb - 1);
    assert(a_key@ =~= a@.drop_last());
    assert(b_key@ =~= b@.drop_last());
    let x = match parse_i32(a_key) {
        Some(x) => x,
        None => return Err("key numeral is not an integer"),
    };
    let y = match parse_i32(b_key) {
        Some(y) => y,
        None => return Err("key numeral is not an integer"),
    };
    let same_mode = a.get_char(la - 1) == b.get_char(lb - 1);
    let d: i64 = (x as i64) - (y as i64);
    let distance: i64 = if d < 0 { -d } else { d };
    if distance == 0 {
        Ok(KeyCompareResult::Compatible)
    } else if distance == 1 || distance == 2 {
        if same_mode { Ok(KeyCompareResult::Compatible) } else { Ok(KeyCompareResult::MaybeCompatible) }
    } else if distance == 3 || distance == 5 || distance == 7 {
        if same_mode { Ok(KeyCompareResult::MaybeCompatible) } else { Ok(KeyCompareResult::Incompatible) }
    } else {
        Ok(KeyCompareResult::Incompatible)
    }
}

/// A colour as red, green and blue intensities.
#[derive(Clone, Copy, Debug, PartialEq, Eq, Structural)]
pub struct Rgb {
    pub r: u8,
    pub g: u8,
    pub b: u8,
}

pub open spec fn key_color(key: KeyCompareResult) -> Option<Rgb> {
    match key {
        KeyCompareResult::PerfectMatch => Some(Rgb { r: 11, g: 75, b: 128 }),
        KeyCompareResult::Compatible => Some(Rgb { r: 19, g: 128, b: 11 }),
        KeyCompareResult::MaybeCompatible => Some(Rgb { r: 143, g: 119, b: 11 }),
        KeyCompareResult::Incompatible => None,
    }
}

/// The highlight of a key cell for a match class; none for a key that does not match.
pub fn color_from_key_compare(key: KeyCompareResult) -> (r: Option<Rgb>)
    ensures
        r == key_color(key),
{
    match key {
        KeyCompareResult::PerfectMatch => Some(Rgb { r: 11, g: 75, b: 128 }),
        KeyCompareResult::Compatible => Some(Rgb { r: 19, g: 128, b: 11 }),
        KeyCompareResult::MaybeCompatible => Some(Rgb { r: 143, g: 119, b: 11 }),
        KeyCompareResult::Incompatible => None,
    }
}

} // verus!
