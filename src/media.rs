//! The media playlist format: `#EXTM3U`, then per segment an `#EXTINF` line
//! with the duration and optional title, and a line with the URI.
use vstd::prelude::*;
use crate::track_metadata::{opt_text, MediaSegment, SegmentView, TrackMetadata, TrackView};

verus! {

pub open spec fn segment_views(ss: Seq<MediaSegment>) -> Seq<SegmentView> {
    ss.map_values(|s: MediaSegment| s@)
}

pub open spec fn parsed_view(r: Result<Option<Vec<MediaSegment>>, String>) -> Result<Option<Seq<SegmentView>>, Seq<char>> {
    match r {
        Ok(Some(v)) => Ok(Some(segment_views(v@))),
        Ok(None) => Ok(None),
        Err(e) => Err(e@),
    }
}

/// What the m3u8 parser makes of a file: the text of its error where it
/// fails, `Ok(None)` for a master playlist, else the media playlist's segments
/// in order, each duration written as the shortest decimal text of the parsed
/// number.
pub uninterp spec fn m3u8_segments(data: Seq<u8>) -> Result<Option<Seq<SegmentView>>, Seq<char>>;

/// Relies on m3u8_rs::parse_playlist: its result depends on the bytes alone.
#[verifier::external_body]
pub(crate) fn parse_media_playlist(data: &[u8]) -> (r: Result<Option<Vec<MediaSegment>>, String>)
    ensures
        parsed_view(r) == m3u8_segments(data@),
{
    match m3u8_rs::parse_playlist(data) {
        Ok((_, m3u8_rs::Playlist::MediaPlaylist(pl))) => Ok(Some(pl.segments.into_iter().map(
            |s| MediaSegment { uri: s.uri, duration: s.duration.to_string(), title: s.title },
        ).collect())),
        Ok((_, m3u8_rs::Playlist::MasterPlaylist(_))) => Ok(None),
        Err(e) => Err(e.to_string()),
    }
}

/// The two lines that a segment takes in a media playlist.
pub open spec fn segment_text(s: SegmentView) -> Seq<char> {
    "#EXTINF:"@ + s.duration + ","@ + match s.title {
        Some(t) => t,
        None => Seq::empty(),
    } + "\n"@ + s.uri + "\n"@
}

pub open spec fn segments_text(ts: Seq<TrackView>) -> Seq<char>
    decreases ts.len(),
{
    if ts.len() == 0 {
        Seq::empty()
    } else {
        segments_text(ts.drop_last()) + segment_text(ts.last().segment)
    }
}

/// A media playlist of the tracks' segments, in order.
pub open spec fn playlist_text(ts: Seq<TrackView>) -> Seq<char> {
    "#EXTM3U\n"@ + segments_text(ts)
}

/// Appends the media playlist of `tracks` to `out`.
pub fn write_playlist(tracks: &Vec<TrackMetadata>, out: &mut String)
    ensures
        final(out)@ == old(out)@ + playlist_text(tracks@.map_values(|t: TrackMetadata| t@)),
{
    let ghost ts = tracks@.map_values(|t: TrackMetadata| t@);
    let ghost start = out@;
    out.append("#EXTM3U\n");
    let mut i: usize = 0;
    while i < tracks.len()
        invariant
            i <= tracks.len(),
            ts == tracks@.map_values(|t: TrackMetadata| t@),
            out@ == start + "#EXTM3U\n"@ + segments_text(ts.subrange(0, i as int)),
        decreases tracks.len() - i,
    {
        let ghost before = out@;
        let seg = &tracks[i].media_segment;
        out.append("#EXTINF:");
        out.append(seg.duration.as_str());
        out.append(",");
        match &seg.title {
            Some(t) => out.append(t.as_str()),
            None => {},
        }
        out.append("\n");
        out.append(seg.uri.as_str());
        out.append("\n");
        assert(ts.subrange(0, i + 1).drop_last() =~= ts.subrange(0, i as int));
        assert(ts.subrange(0, i + 1).last() == tracks@[i as int]@);
        assert(out@ =~= before + segment_text(seg@));
        assert(out@ =~= start + "#EXTM3U\n"@ + segments_text(ts.subrange(0, i + 1)));
        i = i + 1;
    }
    assert(ts.subrange(0, tracks.len() as int) =~= ts);
}

} // verus!
