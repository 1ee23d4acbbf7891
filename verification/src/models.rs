//! Records of the library that the rest of it reads and returns.

use vstd::prelude::*;

verus! {

/// State of the player.
#[derive(Clone, Copy, Debug, PartialEq, Eq, Structural)]
pub enum PlayerState {
    Stopped,
    Playing,
    Paused,
}

/// Repeat mode of the player.
#[derive(Clone, Copy, Debug, PartialEq, Eq, Structural)]
pub enum RepeatMode {
    Off,
    All,
    One,
}

/// A track of the library.
pub struct Track {
    pub id: i64,
    pub title: String,
    pub artist_id: Option<i64>,
    pub album_id: Option<i64>,
    pub album_artist: Option<String>,
    pub duration_ms: Option<i64>,
    pub track_number: Option<i64>,
    pub disc_number: Option<i64>,
    pub genre: Option<String>,
    pub year: Option<i64>,
    pub file_path: String,
    pub file_size: Option<i64>,
    pub format: Option<String>,
    pub bitrate: Option<i64>,
    pub sample_rate: Option<i64>,
    pub channels: Option<i64>,
    pub cover_art_path: Option<String>,
    pub source_platform: Option<String>,
    pub source_url: Option<String>,
    pub play_count: i64,
    pub last_played_at: Option<String>,
    pub date_added: String,
    pub description: Option<String>,
    pub label: Option<String>,
    pub release_date: Option<String>,
    pub composer: Option<String>,
    pub language: Option<String>,
    pub metadata_completeness: i64,
    pub artist_name: Option<String>,
    pub album_title: Option<String>,
}

/// A page of tracks and the total they come from.
pub struct TrackPage {
    pub tracks: Vec<Track>,
    pub total: i64,
}

/// An artist of the library.
pub struct Artist {
    pub id: i64,
    pub name: String,
    pub sort_name: Option<String>,
    pub musicbrainz_id: Option<String>,
    pub image_path: Option<String>,
    pub bio: Option<String>,
    pub country: Option<String>,
    pub begin_year: Option<i64>,
    pub artist_type: Option<String>,
    pub track_count: i64,
}

/// An album of the library.
pub struct Album {
    pub id: i64,
    pub title: String,
    pub artist_id: Option<i64>,
    pub album_artist: Option<String>,
    pub year: Option<i64>,
    pub genre: Option<String>,
    pub total_tracks: Option<i64>,
    pub total_discs: Option<i64>,
    pub musicbrainz_id: Option<String>,
    pub cover_art_path: Option<String>,
    pub label: Option<String>,
    pub release_date: Option<String>,
    pub description: Option<String>,
    pub album_type: Option<String>,
    pub artist_name: Option<String>,
    pub track_count: i64,
}

/// A playlist.
pub struct Playlist {
    pub id: i64,
    pub name: String,
    pub description: Option<String>,
    pub cover_art_path: Option<String>,
    pub source_platform: Option<String>,
    pub source_url: Option<String>,
    pub track_count: i64,
    pub total_duration_ms: i64,
    pub is_synced: bool,
    pub last_synced_at: Option<String>,
    pub created_at: String,
}

/// Totals over the library.
pub struct LibraryStats {
    pub total_tracks: i64,
    pub total_albums: i64,
    pub total_artists: i64,
    pub total_playlists: i64,
    pub total_duration_ms: i64,
    pub total_size_bytes: i64,
}

/// Tracks, albums and artists found by a search.
pub struct SearchResults {
    pub tracks: Vec<Track>,
    pub albums: Vec<Album>,
    pub artists: Vec<Artist>,
}

/// A playlist with its tracks.
pub struct PlaylistDetail {
    pub playlist: Playlist,
    pub tracks: Vec<Track>,
}

/// What a pasted URL points at.
pub struct UrlInfo {
    pub platform: String,
    pub url_type: String,
    pub clean_url: String,
    pub title: Option<String>,
}

/// Outcome of syncing a source playlist.
pub struct SyncResult {
    pub playlist_id: i64,
    pub new_count: i64,
    pub total_count: i64,
}

/// Outcome of queueing a batch of downloads.
pub struct BatchDownloadResult {
    pub queued: i64,
    pub playlist_id: i64,
}

/// Plays on one day.
pub struct DayPlays {
    pub day: String,
    pub count: i64,
}

/// Listening totals over a period.
pub struct StatsOverview {
    pub total_plays: i64,
    pub total_listening_ms: i64,
    pub distinct_tracks: i64,
    pub distinct_artists: i64,
    pub distinct_albums: i64,
    pub plays_per_day: Vec<DayPlays>,
}

/// A most-played track.
pub struct TopTrack {
    pub id: i64,
    pub title: String,
    pub artist_id: Option<i64>,
    pub artist_name: Option<String>,
    pub cover_art_path: Option<String>,
    pub play_count: i64,
}

/// A most-played artist.
pub struct TopArtist {
    pub id: i64,
    pub name: String,
    pub image_path: Option<String>,
    pub play_count: i64,
}

/// A most-played album.
pub struct TopAlbum {
    pub id: i64,
    pub title: String,
    pub artist_name: Option<String>,
    pub cover_art_path: Option<String>,
    pub play_count: i64,
}

/// Most-played tracks, artists and albums.
pub struct StatsTop {
    pub tracks: Vec<TopTrack>,
    pub artists: Vec<TopArtist>,
    pub albums: Vec<TopAlbum>,
}

/// Outcome of enriching one track.
pub struct EnrichResult {
    pub track_id: i64,
    pub fields_updated: i64,
    pub completeness: i64,
}

/// Outcome of enriching one album: how many fields were filled and the
/// album's full tracklist as found (not tracks added to the library).
pub struct EnrichAlbumResult {
    pub album_id: i64,
    pub fields_updated: i64,
    pub tracklist_size: i64,
    pub tracklist: Vec<crate::discography::PlannedTrack>,
}

/// Outcome of a scan for missing metadata.
pub struct ScanMissingResult {
    pub total_tracks: i64,
    pub enriched: i64,
    pub failed: i64,
    pub completeness_avg: i64,
}

/// Progress of an export.
pub struct ExportProgress {
    pub current: i64,
    pub total: i64,
    pub track_title: String,
}

/// Outcome of an export.
pub struct ExportResult {
    pub exported: i64,
    pub skipped: i64,
    pub failed: i64,
    pub destination: String,
}

/// A Last.fm authorization request.
pub struct LastfmAuth {
    pub token: String,
    pub url: String,
}

/// The Last.fm connection.
pub struct LastfmStatus {
    pub connected: bool,
    pub username: Option<String>,
    pub scrobbling_enabled: bool,
    pub pending_scrobbles: i64,
}

/// A source playlist that is watched for new entries.
pub struct MonitoredPlaylist {
    pub id: i64,
    pub name: String,
    pub description: Option<String>,
    pub cover_art_path: Option<String>,
    pub source_platform: Option<String>,
    pub source_url: Option<String>,
    pub source_id: Option<String>,
    pub track_count: i64,
    pub total_duration_ms: i64,
    pub is_synced: bool,
    pub last_synced_at: Option<String>,
    pub created_at: String,
    pub new_count: i64,
    pub downloaded_count: i64,
    pub active_count: i64,
    pub total_entries: i64,
}

/// A detected device and whether it is known.
pub struct ScannedDevice {
    pub device_uid: String,
    pub name: String,
    pub mount_path: String,
    pub capacity_bytes: Option<i64>,
    pub free_bytes: Option<i64>,
    pub vendor: Option<String>,
    pub model: Option<String>,
    pub is_known: bool,
    pub device_id: Option<i64>,
}

/// A download by search terms.
pub struct SearchDownloadRequest {
    pub query: String,
    pub title: Option<String>,
    pub artist: Option<String>,
    pub album_id: Option<i64>,
    pub artist_id: Option<i64>,
}

/// Watched folders.
pub struct WatchStatus {
    pub enabled: bool,
    pub folders: Vec<String>,
}

/// A removable device and its sync settings.
pub struct Device {
    pub id: i64,
    pub device_uid: String,
    pub name: String,
    pub device_type: String,
    pub mount_path: Option<String>,
    pub capacity_bytes: Option<i64>,
    pub music_dir: String,
    pub output_format: String,
    pub output_bitrate: String,
    pub generate_m3u: bool,
    pub first_seen_at: String,
    pub last_seen_at: String,
}

/// A playlist synced to a device.
pub struct DevicePlaylistLink {
    pub playlist_id: i64,
    pub playlist_name: String,
    pub enabled: bool,
    pub last_synced_at: Option<String>,
    pub total_tracks: i64,
    pub synced_tracks: i64,
    pub pending_changes: i64,
}

/// A device with its playlists.
pub struct DeviceDetail {
    pub device: Device,
    pub playlists: Vec<DevicePlaylistLink>,
    pub synced_track_count: i64,
}

/// A removable device found on this machine.
pub struct DetectedDevice {
    pub device_uid: String,
    pub name: String,
    pub mount_path: String,
    pub capacity_bytes: Option<i64>,
    pub free_bytes: Option<i64>,
    pub vendor: Option<String>,
    pub model: Option<String>,
}

/// Progress of a device sync.
pub struct DeviceSyncProgress {
    pub device_id: i64,
    pub playlist_id: i64,
    pub current: i64,
    pub total: i64,
    pub track_title: String,
    pub status: String, // "copying", "converting", "generating_playlist", "done", "error", "cancelled"
    pub error: Option<String>,
}

/// Outcome of a device sync.
pub struct DeviceSyncResult {
    pub device_id: i64,
    pub playlist_id: i64,
    pub synced: i64,
    pub skipped: i64,
    pub failed: i64,
}

/// Outcome of importing an M3U file.
pub struct M3uImportResult {
    pub playlist_id: i64,
    pub playlist_name: String,
    pub matched: i64,
    pub unmatched: i64,
    pub unmatched_entries: Vec<String>,
}

/// A track that does not fit its album.
pub struct TrackMismatch {
    pub track_id: i64,
    pub track_title: String,
    pub album_title: String,
    pub album_id: i64,
    pub reasons: Vec<String>,
    pub track_genre: Option<String>,
    pub album_genre: Option<String>,
    pub track_artist: Option<String>,
    pub album_artist: Option<String>,
}

} // verus!
