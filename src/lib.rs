//! A DJ track library: two ordered playlists of tracks, harmonic key
//! matching between tracks, and a preview player driven as a state machine.
pub mod numeral;
pub mod track_metadata;
pub mod tabular;
pub mod media;
pub mod playlist;
pub mod track_player;
pub mod coordinator;
