//! Navidrome ListenBrainz loved-track sync and CritiqueBrainz rating sync.
//!
//! ListenBrainz, for each Navidrome user linked by token:
//! - inbound: a recording loved on ListenBrainz is starred on the matching local track;
//! - outbound: a locally starred recording is loved on ListenBrainz.
//!
//! CritiqueBrainz, one-way (ratings are read, never written), per entity type:
//! - the rating of an artist, release group, or recording is copied onto the matching Navidrome
//!   artist, album, or song;
//! - a rating at or above a configured threshold also favourites (hearts) that item.
//!
//! Every pass is convergent and incremental: what a pass has already applied is recorded in the key
//! store, so a repeat pass redoes only what is still outstanding. Removals are deliberately never
//! propagated, so the plugin cannot clobber a change it did not make.
//!
//! A pass ([`pass::Pass`]) is a machine: each step takes the answer of the host to the last action
//! and gives the next action, the keys to record and the notes for the administrator. It is made of
//! smaller machines, one for each half: [`inbound`] and [`outbound`], joined in [`user`], and
//! [`ratings`], joined in [`critique`]. The contract of each step says which state and which output
//! follow, and [`laws`] says what holds over any number of steps.

pub mod critique;
pub mod critiquebrainz;
pub mod encoding;
pub mod http;
pub mod inbound;
pub mod json;
pub mod laws;
pub mod listenbrainz;
pub mod mbid;
pub mod outbound;
pub mod pass;
pub mod protocol;
pub mod ratings;
pub mod settings;
pub mod settled;
pub mod subsonic;
pub mod text;
pub mod user;
