//! Core logic of a desktop music manager: the play queue, WAV header
//! repair, artist/genre matching, smart-playlist SQL building, device
//! detection helpers and file-name rules.
pub mod text;
pub mod queue;
pub mod wav;
pub mod credits;
pub mod genres;
pub mod detect;
pub mod smart;
pub mod naming;
pub mod device_sync;
pub mod m3u;
pub mod library;
pub mod models;
pub mod tags;
pub mod player;
pub mod enrich;
pub mod monitor;
pub mod discography;
pub mod loudness;
pub mod cleanup;
pub mod volumes;
pub mod catalog;
pub mod playlists;
pub mod records;
pub mod preferences;
