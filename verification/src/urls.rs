use vstd::prelude::*;
use vstd::string::StringExecFns;
use crate::textops::{encode_query, join_comma, spec_encode_query, spec_join};

verus! {

/// The URL of the single-artist endpoint.
pub open spec fn spec_artist_url(id: Seq<char>) -> Seq<char> {
    "https://api.spotify.com/v1/artists/"@ + id + "/"@
}

pub fn artist_url(artist_id: &str) -> (r: String)
    ensures
        r@ == spec_artist_url(artist_id@),
{
    String::from_str("https://api.spotify.com/v1/artists/").concat(artist_id).concat("/")
}

/// The URL of the per-artist album enumeration, restricted to the album
/// groups and market the crawl consumes.
pub open spec fn spec_artist_albums_url(id: Seq<char>) -> Seq<char> {
    "https://api.spotify.com/v1/artists/"@ + id
        + "/albums/?include_groups=album,single,compilation&country=US"@
}

pub fn artist_albums_url(artist_id: &str) -> (r: String)
    ensures
        r@ == spec_artist_albums_url(artist_id@),
{
    String::from_str("https://api.spotify.com/v1/artists/").concat(artist_id).concat(
        "/albums/?include_groups=album,single,compilation&country=US",
    )
}

/// The URL of the per-artist top-track endpoint.
pub open spec fn spec_artist_top_tracks_url(id: Seq<char>) -> Seq<char> {
    "https://api.spotify.com/v1/artists/"@ + id + "/top-tracks/?country=US"@
}

pub fn artist_top_tracks_url(artist_id: &str) -> (r: String)
    ensures
        r@ == spec_artist_top_tracks_url(artist_id@),
{
    String::from_str("https://api.spotify.com/v1/artists/").concat(artist_id).concat(
        "/top-tracks/?country=US",
    )
}

/// The URL of the related-artist endpoint the BFS expands through.
pub open spec fn spec_artist_related_artists_url(id: Seq<char>) -> Seq<char> {
    "https://api.spotify.com/v1/artists/"@ + id + "/related-artists/"@
}

pub fn artist_related_artists_url(artist_id: &str) -> (r: String)
    ensures
        r@ == spec_artist_related_artists_url(artist_id@),
{
    String::from_str("https://api.spotify.com/v1/artists/").concat(artist_id).concat(
        "/related-artists/",
    )
}

/// The URL of the bulk artist endpoint: ids joined with commas.
pub open spec fn spec_artists_url(ids: Seq<String>) -> Seq<char> {
    "https://api.spotify.com/v1/artists/?ids="@ + spec_join(ids, ","@)
}

pub fn artists_url(artist_ids: &Vec<String>) -> (r: String)
    ensures
        r@ == spec_artists_url(artist_ids@),
{
    String::from_str("https://api.spotify.com/v1/artists/?ids=").concat(
        join_comma(artist_ids).as_str(),
    )
}

/// The URL of the single-album endpoint.
pub open spec fn spec_album_url(id: Seq<char>) -> Seq<char> {
    "https://api.spotify.com/v1/albums/"@ + id + "/"@
}

pub fn album_url(album_id: &str) -> (r: String)
    ensures
        r@ == spec_album_url(album_id@),
{
    String::from_str("https://api.spotify.com/v1/albums/").concat(album_id).concat("/")
}

/// The URL of the per-album track listing.
pub open spec fn spec_album_tracks_url(id: Seq<char>) -> Seq<char> {
    "https://api.spotify.com/v1/albums/"@ + id + "/tracks/"@
}

pub fn album_tracks_url(album_id: &str) -> (r: String)
    ensures
        r@ == spec_album_tracks_url(album_id@),
{
    String::from_str("https://api.spotify.com/v1/albums/").concat(album_id).concat("/tracks/")
}

/// The URL of the bulk album endpoint.
pub open spec fn spec_albums_url(ids: Seq<String>) -> Seq<char> {
    "https://api.spotify.com/v1/albums/?ids="@ + spec_join(ids, ","@)
}

pub fn albums_url(album_ids: &Vec<String>) -> (r: String)
    ensures
        r@ == spec_albums_url(album_ids@),
{
    String::from_str("https://api.spotify.com/v1/albums/?ids=").concat(
        join_comma(album_ids).as_str(),
    )
}

/// The URL of the single-track endpoint.
pub open spec fn spec_track_url(id: Seq<char>) -> Seq<char> {
    "https://api.spotify.com/v1/tracks/"@ + id + "/"@
}

pub fn track_url(track_id: &str) -> (r: String)
    ensures
        r@ == spec_track_url(track_id@),
{
    String::from_str("https://api.spotify.com/v1/tracks/").concat(track_id).concat("/")
}

/// The URL of the bulk track endpoint.
pub open spec fn spec_tracks_url(ids: Seq<String>) -> Seq<char> {
    "https://api.spotify.com/v1/tracks/?ids="@ + spec_join(ids, ","@)
}

pub fn tracks_url(track_ids: &Vec<String>) -> (r: String)
    ensures
        r@ == spec_tracks_url(track_ids@),
{
    String::from_str("https://api.spotify.com/v1/tracks/?ids=").concat(
        join_comma(track_ids).as_str(),
    )
}

/// The URL of the audio-analysis endpoint.
pub open spec fn spec_audio_analysis_url(id: Seq<char>) -> Seq<char> {
    "https://api.spotify.com/v1/audio-analysis/"@ + id + "/"@
}

pub fn audio_analysis_url(track_id: &str) -> (r: String)
    ensures
        r@ == spec_audio_analysis_url(track_id@),
{
    String::from_str("https://api.spotify.com/v1/audio-analysis/").concat(track_id).concat("/")
}

/// The URL of the single-track audio-features endpoint.
pub open spec fn spec_audio_features_url(id: Seq<char>) -> Seq<char> {
    "https://api.spotify.com/v1/audio-features/"@ + id + "/"@
}

pub fn audio_features_url(track_id: &str) -> (r: String)
    ensures
        r@ == spec_audio_features_url(track_id@),
{
    String::from_str("https://api.spotify.com/v1/audio-features/").concat(track_id).concat("/")
}

/// The URL of the bulk audio-features endpoint.
pub open spec fn spec_audio_features_bulk_url(ids: Seq<String>) -> Seq<char> {
    "https://api.spotify.com/v1/audio-features/?ids="@ + spec_join(ids, ","@)
}

pub fn audio_features_bulk_url(track_ids: &Vec<String>) -> (r: String)
    ensures
        r@ == spec_audio_features_bulk_url(track_ids@),
{
    String::from_str("https://api.spotify.com/v1/audio-features/?ids=").concat(
        join_comma(track_ids).as_str(),
    )
}

/// The URL of the search endpoint: the query with spaces percent-encoded
/// and the object type to search for.
pub open spec fn spec_search_url(query: Seq<char>, kind: Seq<char>) -> Seq<char> {
    "https://api.spotify.com/v1/search/?q="@ + spec_encode_query(query) + "&type="@ + kind
}

pub fn search_url(query: &str, kind: &str) -> (r: String)
    ensures
        r@ == spec_search_url(query@, kind@),
{
    String::from_str("https://api.spotify.com/v1/search/?q=").concat(
        encode_query(query).as_str(),
    ).concat("&type=").concat(kind)
}

} // verus!
