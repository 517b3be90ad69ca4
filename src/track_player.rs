//! The preview player as a state machine. Fractions and gains are 32-bit
//! floating-point numbers held as their bit patterns: the player stores and
//! hands them on, and the caller that owns the audio device does the
//! arithmetic. Each operation returns the action that the caller performs on
//! the device.
use vstd::prelude::*;
use crate::track_metadata::{TrackMetadata, TrackView};

verus! {

/// The bit pattern of 0.5, the gain of a new player.
pub const HALF: u32 = 0x3f00_0000;

/// What the owner of the audio device does after an operation.
pub enum PlayerAction {
    Nothing,
    /// Resume the paused session.
    Resume,
    /// Drop any session, open `uri` in a new one at gain `volume`, and seek it
    /// to `start` times `duration` seconds.
    Open { uri: String, volume: u32, start: u32, duration: String },
    /// Seek the session to `position` times `duration` seconds.
    Seek { position: u32, duration: String },
    /// Set the session's gain.
    SetVolume { volume: u32 },
    /// Stop and drop the session.
    Close,
}

pub enum ActionView {
    Nothing,
    Resume,
    Open { uri: Seq<char>, volume: u32, start: u32, duration: Seq<char> },
    Seek { position: u32, duration: Seq<char> },
    SetVolume { volume: u32 },
    Close,
}

impl View for PlayerAction {
    type V = ActionView;

    open spec fn view(&self) -> ActionView {
        match self {
            PlayerAction::Nothing => ActionView::Nothing,
            PlayerAction::Resume => ActionView::Resume,
            PlayerAction::Open { uri, volume, start, duration } =>
                ActionView::Open { uri: uri@, volume: *volume, start: *start, duration: duration@ },
            PlayerAction::Seek { position, duration } =>
                ActionView::Seek { position: *position, duration: duration@ },
            PlayerAction::SetVolume { volume } => ActionView::SetVolume { volume: *volume },
            PlayerAction::Close => ActionView::Close,
        }
    }
}

/// The player: the loaded track, the position as a fraction of its duration,
/// the gain, and whether a playback session is open on the device.
pub struct Player {
    pub track: Option<TrackMetadata>,
    pub position: u32,
    pub volume: u32,
    pub session: bool,
}

pub struct PlayerView {
    pub track: Option<TrackView>,
    pub position: u32,
    pub volume: u32,
    pub session: bool,
}

pub open spec fn opt_track(t: Option<TrackMetadata>) -> Option<TrackView> {
    match t {
        Some(t) => Some(t@),
        None => None,
    }
}

impl View for Player {
    type V = PlayerView;

    open spec fn view(&self) -> PlayerView {
        PlayerView {
            track: opt_track(self.track),
            position: self.position,
            volume: self.volume,
            session: self.session,
        }
    }
}

/// The session that plays the loaded track from the current position.
pub open spec fn open_action(p: PlayerView) -> ActionView {
    ActionView::Open {
        uri: p.track.unwrap().segment.uri,
        volume: p.volume,
        start: p.position,
        duration: p.track.unwrap().segment.duration,
    }
}

/// `load`: stop any session, go back to the start, and hold the new track.
pub open spec fn load_step(p: PlayerView, t: Option<TrackView>) -> (PlayerView, ActionView) {
    (
        PlayerView { track: t, position: 0, session: false, ..p },
        if p.session { ActionView::Close } else { ActionView::Nothing },
    )
}

/// `play`: nothing without a track; resume an open session; else open one.
pub open spec fn play_step(p: PlayerView) -> (PlayerView, ActionView) {
    if p.track.is_none() {
        (p, ActionView::Nothing)
    } else if p.session {
        (p, ActionView::Resume)
    } else {
        (p, open_action(p))
    }
}

/// `stop`: drop the session; the position stays.
pub open spec fn stop_step(p: PlayerView) -> (PlayerView, ActionView) {
    (
        PlayerView { session: false, ..p },
        if p.session { ActionView::Close } else { ActionView::Nothing },
    )
}

/// The bit pattern of the greatest of a fraction and zero: patterns above that
/// of positive infinity are negative numbers or not numbers, and become 0.
pub open spec fn nonneg(b: u32) -> u32 {
    if b > 0x7f80_0000 { 0 } else { b }
}

/// `seek`: take the new position, clamped to zero or above (there is no upper
/// clamp); seek an open session that still plays,
/// else play the track afresh from there.
pub open spec fn seek_step(p: PlayerView, pos: u32, drained: bool) -> (PlayerView, ActionView) {
    let q = PlayerView { position: nonneg(pos), ..p };
    if q.track.is_none() {
        (q, ActionView::Nothing)
    } else if q.session && !drained {
        (q, ActionView::Seek { position: nonneg(pos), duration: q.track.unwrap().segment.duration })
    } else {
        (PlayerView { session: false, ..q }, open_action(q))
    }
}

/// `set_volume`: keep the gain, and hand it to an open session.
pub open spec fn volume_step(p: PlayerView, v: u32) -> (PlayerView, ActionView) {
    (
        PlayerView { volume: v, ..p },
        if p.session { ActionView::SetVolume { volume: v } } else { ActionView::Nothing },
    )
}

/// The device opened the session that an `Open` asked for.
pub open spec fn opened_step(p: PlayerView) -> PlayerView {
    PlayerView { session: p.track.is_some(), ..p }
}

fn open_session(track: &TrackMetadata, volume: u32, start: u32) -> (r: PlayerAction)
    ensures
        r@ == (ActionView::Open {
            uri: track@.segment.uri,
            volume,
            start,
            duration: track@.segment.duration,
        }),
{
    PlayerAction::Open {
        uri: track.media_segment.uri.clone(),
        volume,
        start,
        duration: track.media_segment.duration.clone(),
    }
}

impl Player {
    /// A player with no track, at the start, at half gain, with no session.
    pub fn new() -> (r: Player)
        ensures
            r@ == (PlayerView { track: None, position: 0, volume: HALF, session: false }),
    {
        Player { track: None, position: 0, volume: HALF, session: false }
    }

    pub fn load(&mut self, track: Option<TrackMetadata>) -> (r: PlayerAction)
        ensures
            (final(self)@, r@) == load_step(old(self)@, opt_track(track)),
    {
        let r = self.stop();
        self.position = 0;
        self.track = track;
        r
    }

    pub fn play(&mut self) -> (r: PlayerAction)
        ensures
            (final(self)@, r@) == play_step(old(self)@),
    {
        match &self.track {
            None => PlayerAction::Nothing,
            Some(t) => {
                if self.session {
                    PlayerAction::Resume
                } else {
                    open_session(t, self.volume, self.position)
                }
            },
        }
    }

    pub fn stop(&mut self) -> (r: PlayerAction)
        ensures
            (final(self)@, r@) == stop_step(old(self)@),
    {
        if self.session {
            self.session = false;
            PlayerAction::Close
        } else {
            PlayerAction::Nothing
        }
    }

    /// Moves to `pos` (a fraction of the duration), clamped to zero or above:
    /// a negative fraction, or one that is not a number, moves to the start;
    /// one above 1 is kept. `drained` tells that the open session has played
    /// to its end, which counts as no session.
    pub fn seek(&mut self, pos: u32, drained: bool) -> (r: PlayerAction)
        ensures
            (final(self)@, r@) == seek_step(old(self)@, pos, drained),
    {
        let pos: u32 = if pos > 0x7f80_0000 { 0 } else { pos };
        self.position = pos;
        match &self.track {
            None => PlayerAction::Nothing,
            Some(t) => {
                if self.session && !drained {
                    PlayerAction::Seek { position: pos, duration: t.media_segment.duration.clone() }
                } else {
                    self.session = false;
                    open_session(t, self.volume, pos)
                }
            },
        }
    }

    pub fn set_volume(&mut self, volume: u32) -> (r: PlayerAction)
        ensures
            (final(self)@, r@) == volume_step(old(self)@, volume),
    {
        self.volume = volume;
        if self.session {
            PlayerAction::SetVolume { volume }
        } else {
            PlayerAction::Nothing
        }
    }

    /// Records that the device opened the session that `Open` asked for.
    pub fn opened(&mut self)
        ensures
            final(self)@ == opened_step(old(self)@),
    {
        self.session = self.track.is_some();
    }

    /// Takes the position that the open session has reached; returns whether
    /// it changed, so that the playhead is drawn again.
    pub fn update(&mut self, reached: u32) -> (r: bool)
        ensures
            r == old(self).session,
            final(self)@ == (if old(self).session { PlayerView { position: reached, ..old(self)@ } } else { old(self)@ }),
    {
        if self.session {
            self.position = reached;
            true
        } else {
            false
        }
    }
}

impl Default for Player {
    fn default() -> (r: Player)
        ensures
            r@ == (PlayerView { track: None, position: 0, volume: HALF, session: false }),
    {
        Player::new()
    }
}

/// Loading no track leaves the player at the start, without a track or a
/// session, whatever it was doing.
pub proof fn lemma_unload_resets(p: PlayerView)
    ensures
        load_step(p, None).0.position == 0,
        load_step(p, None).0.track.is_none(),
        !load_step(p, None).0.session,
{
}

/// Seeking a stopped player with a track opens a session at that position
/// (clamped to zero or above), and once the device has opened it the player
/// plays from there.
pub proof fn lemma_seek_while_stopped_plays(p: PlayerView, pos: u32, drained: bool)
    requires
        p.track.is_some(),
        !p.session,
    ensures
        seek_step(p, pos, drained).1 == (ActionView::Open {
            uri: p.track.unwrap().segment.uri,
            volume: p.volume,
            start: nonneg(pos),
            duration: p.track.unwrap().segment.duration,
        }),
        opened_step(seek_step(p, pos, drained).0).session,
        opened_step(seek_step(p, pos, drained).0).position == nonneg(pos),
{
}

/// Seeking to a negative fraction moves to the start, whatever the state.
pub proof fn lemma_seek_clamps_negative(p: PlayerView, pos: u32, drained: bool)
    requires
        pos >= 0x8000_0000,
    ensures
        seek_step(p, pos, drained).0.position == 0,
        seek_step(p, pos, drained).1 matches ActionView::Seek { position, .. } ==> position == 0,
        seek_step(p, pos, drained).1 matches ActionView::Open { start, .. } ==> start == 0,
{
}

/// A gain set while stopped is kept, and the next play opens its session at
/// that gain.
pub proof fn lemma_volume_applies_on_play(p: PlayerView, v: u32)
    requires
        p.track.is_some(),
        !p.session,
    ensures
        volume_step(p, v).1 == ActionView::Nothing,
        volume_step(p, v).0.volume == v,
        play_step(volume_step(p, v).0).1 matches ActionView::Open { volume, .. } && volume == v,
{
}

} // verus!
