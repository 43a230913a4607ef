use vstd::prelude::*;
use crate::album_types::AlbumSimple;
use crate::artist_types::{ArtistCsv, ArtistSimple};

verus! {

/// A relinking reference carried on some track objects.
pub struct TrackLink {
    pub href: String,
    pub id: String,
    pub uri: String,
    pub object_type: String,
}

/// The track fields shared by the simple and the full shape.
pub struct TrackSimple {
    pub artists: Vec<ArtistSimple>,
    pub disc_number: i32,
    pub duration_ms: i32,
    pub explicit: bool,
    pub href: String,
    pub id: String,
    pub is_playable: Option<bool>,
    pub linked_from: Option<TrackLink>,
    pub name: String,
    pub preview_url: Option<String>,
    pub track_number: i32,
    pub uri: String,
    pub object_type: String,
}

/// A fully expanded track object, with its album and popularity.
pub struct TrackFull {
    pub artists: Vec<ArtistSimple>,
    pub disc_number: i32,
    pub duration_ms: i32,
    pub explicit: bool,
    pub href: String,
    pub id: String,
    pub is_playable: Option<bool>,
    pub linked_from: Option<TrackLink>,
    pub name: String,
    pub preview_url: Option<String>,
    pub track_number: i32,
    pub uri: String,
    pub object_type: String,
    pub album: AlbumSimple,
    pub popularity: i32,
}

/// The output row of the per-album track crawl.
#[derive(Debug, PartialEq, Eq)]
pub struct TrackCsv {
    pub origin_album: String,
    pub origin_album_or_origin_artist_genres: String,
    pub id: String,
    pub name: String,
    pub track_number: i32,
}

impl TrackCsv {
    /// Projects a simple track onto its output row, tagged with the
    /// album it came from and the genre string chosen for that album.
    pub fn extract_from(
        track_simple: TrackSimple,
        origin_album: String,
        origin_album_or_origin_artist_genres: String,
    ) -> (r: TrackCsv)
        ensures
            r.origin_album == origin_album,
            r.origin_album_or_origin_artist_genres == origin_album_or_origin_artist_genres,
            r.id == track_simple.id,
            r.name == track_simple.name,
            r.track_number == track_simple.track_number,
    {
        TrackCsv {
            origin_album,
            origin_album_or_origin_artist_genres,
            id: track_simple.id,
            name: track_simple.name,
            track_number: track_simple.track_number,
        }
    }
}

/// The output row of the per-artist top-track crawl.
#[derive(Debug, PartialEq, Eq)]
pub struct TrackCsv2 {
    pub track_id: String,
    pub origin_album: String,
    pub origin_album_name: String,
    pub origin_artist: String,
    pub origin_artist_name: String,
    pub origin_artist_genres: String,
    pub track_name: String,
    pub track_popularity: i32,
}

impl TrackCsv2 {
    /// Projects a full track onto its output row, tagged with the
    /// crawled artist it was fetched for.
    pub fn extract_from(track_full: TrackFull, origin_artist: &ArtistCsv) -> (r: TrackCsv2)
        ensures
            r.track_id == track_full.id,
            r.origin_album == track_full.album.id,
            r.origin_album_name == track_full.album.name,
            r.origin_artist == origin_artist.id,
            r.origin_artist_name == origin_artist.name,
            r.origin_artist_genres == origin_artist.genres,
            r.track_name == track_full.name,
            r.track_popularity == track_full.popularity,
    {
        TrackCsv2 {
            track_id: track_full.id,
            origin_album: track_full.album.id,
            origin_album_name: track_full.album.name,
            origin_artist: origin_artist.id.clone(),
            origin_artist_name: origin_artist.name.clone(),
            origin_artist_genres: origin_artist.genres.clone(),
            track_name: track_full.name,
            track_popularity: track_full.popularity,
        }
    }
}

} // verus!
