//! The application's state: the import and export playlists, the selected
//! track, and the player, with what the user's actions do to them.
use vstd::prelude::*;
use crate::playlist::{
    first_of, first_with_id, has_id, lemma_move_down_swaps_with_next, lemma_move_without_track, moved_down, moved_up,
    removed, swapped, Playlist,
};
use crate::track_metadata::{compare_keys, color_from_key_compare, key_class, key_color, Rgb, TrackMetadata, TrackView};
use crate::track_player::{load_step, opt_track, play_step, stop_step, ActionView, Player, PlayerAction, PlayerView, HALF};

verus! {

/// A click on a row: selecting the selected track clears the selection, any
/// other track becomes the selection.
pub open spec fn toggled(sel: Option<TrackView>, t: TrackView) -> Option<TrackView> {
    if sel.is_some() && sel.unwrap().id == t.id { None } else { Some(t) }
}

/// The colour of a track's key cell beside the selection: none without a
/// selection, on the selected track itself, or where the keys do not compare.
pub open spec fn key_cell(sel: Option<TrackView>, t: TrackView) -> Option<Rgb> {
    if sel.is_none() || sel.unwrap().id == t.id {
        None
    } else {
        match key_class(sel.unwrap().key, t.key) {
            Some(c) => key_color(c),
            None => None,
        }
    }
}

/// What the player must load to follow the selection, if anything: nothing
/// once the selection is cleared while a track is loaded, or the selection
/// where nothing is loaded or the loaded track's id differs from it.
pub open spec fn load_wanted(sel: Option<TrackView>, cur: Option<TrackView>) -> Option<Option<TrackView>> {
    if sel.is_none() && cur.is_some() {
        Some(None)
    } else if sel.is_some() && (cur.is_none() || sel.unwrap().id != cur.unwrap().id) {
        Some(sel)
    } else {
        None
    }
}

/// The player after following the selection, and the action that takes.
pub open spec fn follow_step(sel: Option<TrackView>, p: PlayerView) -> (PlayerView, ActionView) {
    match load_wanted(sel, p.track) {
        Some(t) => load_step(p, t),
        None => (p, ActionView::Nothing),
    }
}

/// The two playlists after the selected track with this id changes sides:
/// out of the import playlist to the end of the export playlist, or else the
/// other way round.
pub open spec fn transferred(imp: Seq<TrackView>, exp: Seq<TrackView>, id: u32) -> (Seq<TrackView>, Seq<TrackView>) {
    if has_id(imp, id) {
        (removed(imp, id), exp.push(imp[first_of(imp, id)]))
    } else if has_id(exp, id) {
        (imp.push(exp[first_of(exp, id)]), removed(exp, id))
    } else {
        (imp, exp)
    }
}

/// The user's input in one frame.
#[derive(Clone, Copy, Debug, PartialEq, Eq, Structural)]
pub struct FrameInput {
    pub arrow_down: bool,
    pub arrow_up: bool,
    pub space: bool,
    pub stop: bool,
    pub play: bool,
}

/// The two playlists after a frame's keys: a move down (or else up), then a
/// change of sides, each of the selected track.
pub open spec fn frame_tables(
    imp: Seq<TrackView>,
    exp: Seq<TrackView>,
    sel: Option<TrackView>,
    input: FrameInput,
) -> (Seq<TrackView>, Seq<TrackView>) {
    match sel {
        None => (imp, exp),
        Some(t) => {
            let moved = if input.arrow_down {
                (moved_down(imp, t.id), moved_down(exp, t.id))
            } else if input.arrow_up {
                (moved_up(imp, t.id), moved_up(exp, t.id))
            } else {
                (imp, exp)
            };
            if input.space { transferred(moved.0, moved.1, t.id) } else { moved }
        },
    }
}

/// The player after a frame, and its three actions in order: following the
/// selection, the stop button, the play button.
pub open spec fn frame_player(p: PlayerView, sel: Option<TrackView>, input: FrameInput) -> (PlayerView, Seq<ActionView>) {
    let f = follow_step(sel, p);
    let s = if input.stop { stop_step(f.0) } else { (f.0, ActionView::Nothing) };
    let q = if input.play { play_step(s.0) } else { (s.0, ActionView::Nothing) };
    (q.0, seq![f.1, s.1, q.1])
}

impl Playlist {
    /// Toggles the shared selection for a click on `track`'s row.
    pub fn toggle_row_selection(selected: &mut Option<TrackMetadata>, track: TrackMetadata)
        ensures
            opt_track(*final(selected)) == toggled(opt_track(*old(selected)), track@),
    {
        let same = match selected {
            Some(s) => s.id == track.id,
            None => false,
        };
        if same {
            *selected = None;
        } else {
            *selected = Some(track);
        }
    }

    /// The highlight of `track`'s key cell, given the selection.
    pub fn key_cell_color(selected: &Option<TrackMetadata>, track: &TrackMetadata) -> (r: Option<Rgb>)
        ensures
            r == key_cell(opt_track(*selected), track@),
    {
        match selected {
            None => None,
            Some(s) => {
                if s.id == track.id {
                    None
                } else {
                    match compare_keys(s.key.as_str(), track.key.as_str()) {
                        Ok(c) => color_from_key_compare(c),
                        Err(_) => None,
                    }
                }
            },
        }
    }
}

pub struct App {
    pub import_table: Playlist,
    pub export_table: Playlist,
    pub selected_track: Option<TrackMetadata>,
    pub player: Player,
}

impl App {
    pub fn new() -> (r: App)
        ensures
            r.import_table@ == Seq::<TrackView>::empty(),
            r.export_table@ == Seq::<TrackView>::empty(),
            r.selected_track.is_none(),
            r.player@ == (PlayerView { track: None, position: 0, volume: HALF, session: false }),
    {
        App {
            import_table: Playlist::new(),
            export_table: Playlist::new(),
            selected_track: None,
            player: Player::new(),
        }
    }

    /// Loads into the player what the selection asks for.
    pub fn update_player(&mut self) -> (r: PlayerAction)
        ensures
            final(self).import_table == old(self).import_table,
            final(self).export_table == old(self).export_table,
            final(self).selected_track == old(self).selected_track,
            match load_wanted(opt_track(old(self).selected_track), old(self).player@.track) {
                Some(t) => (final(self).player@, r@) == load_step(old(self).player@, t),
                None => final(self).player@ == old(self).player@ && r@ == ActionView::Nothing,
            },
            (final(self).player@, r@) == follow_step(opt_track(old(self).selected_track), old(self).player@),
    {
        match &self.selected_track {
            None => {
                if self.player.track.is_some() {
                    self.player.load(None)
                } else {
                    PlayerAction::Nothing
                }
            },
            Some(t) => {
                let differs = match &self.player.track {
                    Some(p) => p.id != t.id,
                    None => true,
                };
                if differs {
                    let copy = t.duplicate();
                    self.player.load(Some(copy))
                } else {
                    PlayerAction::Nothing
                }
            },
        }
    }

    /// A click on `track`'s row.
    pub fn click_row(&mut self, track: &TrackMetadata)
        ensures
            final(self).import_table == old(self).import_table,
            final(self).export_table == old(self).export_table,
            final(self).player == old(self).player,
            opt_track(final(self).selected_track) == toggled(opt_track(old(self).selected_track), track@),
    {
        Playlist::toggle_row_selection(&mut self.selected_track, track.duplicate());
    }

    /// Moves the selected track one place down in whichever playlist holds it.
    pub fn move_selected_down(&mut self)
        ensures
            old(self).selected_track matches Some(t) ==> final(self).import_table@ == moved_down(old(self).import_table@, t.id)
                && final(self).export_table@ == moved_down(old(self).export_table@, t.id),
            final(self).selected_track == old(self).selected_track,
            final(self).player == old(self).player,
            old(self).selected_track.is_none() ==> final(self).import_table@ == old(self).import_table@
                && final(self).export_table@ == old(self).export_table@,
            old(self).selected_track matches Some(t) ==> {
                &&& forall|i: int| first_with_id(old(self).import_table@, t.id, i) && i + 1 < old(self).import_table@.len()
                    ==> final(self).import_table@ == swapped(old(self).import_table@, i, i + 1)
                &&& (forall|i: int| first_with_id(old(self).import_table@, t.id, i) ==> i + 1 == old(self).import_table@.len())
                    ==> final(self).import_table@ == old(self).import_table@
                &&& forall|i: int| first_with_id(old(self).export_table@, t.id, i) && i + 1 < old(self).export_table@.len()
                    ==> final(self).export_table@ == swapped(old(self).export_table@, i, i + 1)
                &&& (forall|i: int| first_with_id(old(self).export_table@, t.id, i) ==> i + 1 == old(self).export_table@.len())
                    ==> final(self).export_table@ == old(self).export_table@
            },
    {
        match &self.selected_track {
            Some(t) => {
                self.import_table.maybe_move_track_down(t);
                self.export_table.maybe_move_track_down(t);
            },
            None => {},
        }
    }

    /// Moves the selected track one place up in whichever playlist holds it.
    pub fn move_selected_up(&mut self)
        ensures
            old(self).selected_track matches Some(t) ==> final(self).import_table@ == moved_up(old(self).import_table@, t.id)
                && final(self).export_table@ == moved_up(old(self).export_table@, t.id),
            final(self).selected_track == old(self).selected_track,
            final(self).player == old(self).player,
            old(self).selected_track.is_none() ==> final(self).import_table@ == old(self).import_table@
                && final(self).export_table@ == old(self).export_table@,
            old(self).selected_track matches Some(t) ==> {
                &&& forall|i: int| first_with_id(old(self).import_table@, t.id, i) && i > 0
                    ==> final(self).import_table@ == swapped(old(self).import_table@, i - 1, i)
                &&& (forall|i: int| first_with_id(old(self).import_table@, t.id, i) ==> i == 0)
                    ==> final(self).import_table@ == old(self).import_table@
                &&& forall|i: int| first_with_id(old(self).export_table@, t.id, i) && i > 0
                    ==> final(self).export_table@ == swapped(old(self).export_table@, i - 1, i)
                &&& (forall|i: int| first_with_id(old(self).export_table@, t.id, i) ==> i == 0)
                    ==> final(self).export_table@ == old(self).export_table@
            },
    {
        match &self.selected_track {
            Some(t) => {
                self.import_table.maybe_move_track_up(t);
                self.export_table.maybe_move_track_up(t);
            },
            None => {},
        }
    }

    /// Moves the selected track from the import playlist to the end of the
    /// export playlist, or else from the export playlist to the end of the
    /// import playlist.
    pub fn transfer_selected(&mut self)
        ensures
            old(self).selected_track matches Some(t) ==> (final(self).import_table@, final(self).export_table@)
                == transferred(old(self).import_table@, old(self).export_table@, t.id),
            final(self).selected_track == old(self).selected_track,
            final(self).player == old(self).player,
            old(self).selected_track.is_none() ==> final(self).import_table@ == old(self).import_table@
                && final(self).export_table@ == old(self).export_table@,
            old(self).selected_track matches Some(t) ==> {
                if has_id(old(self).import_table@, t.id) {
                    exists|i: int| first_with_id(old(self).import_table@, t.id, i)
                        && final(self).import_table@ == old(self).import_table@.remove(i)
                        && final(self).export_table@ == old(self).export_table@.push(old(self).import_table@[i])
                } else if has_id(old(self).export_table@, t.id) {
                    exists|i: int| first_with_id(old(self).export_table@, t.id, i)
                        && final(self).export_table@ == old(self).export_table@.remove(i)
                        && final(self).import_table@ == old(self).import_table@.push(old(self).export_table@[i])
                } else {
                    final(self).import_table@ == old(self).import_table@
                        && final(self).export_table@ == old(self).export_table@
                }
            },
    {
        match &self.selected_track {
            Some(t) => {
                let id = t.id;
                match self.import_table.maybe_remove_track(id) {
                    Some(track) => {
                        self.export_table.add_track(track);
                    },
                    None => match self.export_table.maybe_remove_track(id) {
                        Some(track) => {
                            self.import_table.add_track(track);
                        },
                        None => {},
                    },
                }
            },
            None => {},
        }
    }

    /// One frame of the user's input: follow the selection with the player,
    /// move the selected track down (or else up), move it to the other
    /// playlist, then stop and play. Returns the player's three actions, in
    /// that order, for the audio device.
    pub fn update(&mut self, input: FrameInput) -> (r: Vec<PlayerAction>)
        ensures
            final(self).selected_track == old(self).selected_track,
            (final(self).import_table@, final(self).export_table@) == frame_tables(
                old(self).import_table@,
                old(self).export_table@,
                opt_track(old(self).selected_track),
                input,
            ),
            (final(self).player@, r@.map_values(|a: PlayerAction| a@))
                == frame_player(old(self).player@, opt_track(old(self).selected_track), input),
    {
        let follow = self.update_player();
        if input.arrow_down {
            self.move_selected_down();
        } else if input.arrow_up {
            self.move_selected_up();
        }
        if input.space {
            self.transfer_selected();
        }
        let stopped = if input.stop { self.player.stop() } else { PlayerAction::Nothing };
        let played = if input.play { self.player.play() } else { PlayerAction::Nothing };
        let mut actions: Vec<PlayerAction> = Vec::new();
        actions.push(follow);
        actions.push(stopped);
        actions.push(played);
        assert(actions@.map_values(|a: PlayerAction| a@) =~= frame_player(
            old(self).player@,
            opt_track(old(self).selected_track),
            input,
        ).1);
        actions
    }
}

/// With the second of three tracks selected in the import playlist, and no
/// track of the export playlist sharing its id, a frame with the down arrow
/// (and no space) moves it to the third place, swapping it with the track
/// after it, and leaves the export playlist as it was.
pub proof fn lemma_down_arrow_moves_selected(
    imp: Seq<TrackView>,
    exp: Seq<TrackView>,
    t: TrackView,
    input: FrameInput,
)
    requires
        imp.len() == 3,
        imp[0].id != t.id,
        imp[1].id == t.id,
        !has_id(exp, t.id),
        input.arrow_down,
        !input.space,
    ensures
        frame_tables(imp, exp, Some(t), input) == (seq![imp[0], imp[2], imp[1]], exp),
{
    assert(first_with_id(imp, t.id, 1));
    lemma_move_down_swaps_with_next(imp, t.id, 1);
    lemma_move_without_track(exp, t.id);
}

} // verus!
