use vstd::prelude::*;
use crate::artist_types::ArtistSimple;
use crate::common_types::{Image, Paging};
use crate::track_types::TrackSimple;

verus! {

/// A copyright notice on a full album.
pub struct Copyright {
    pub text: String,
    pub object_type: String,
}

/// The album fields shared by the simple and the full shape.
pub struct AlbumSimple {
    pub album_group: Option<String>,
    pub album_type: String,
    pub artists: Vec<ArtistSimple>,
    pub href: String,
    pub id: String,
    pub images: Vec<Image>,
    pub name: String,
    pub release_date: String,
    pub release_date_precision: String,
    pub uri: String,
    pub object_type: String,
}

/// A fully expanded album object, with its first page of tracks.
pub struct AlbumFull {
    pub album_group: Option<String>,
    pub album_type: String,
    pub artists: Vec<ArtistSimple>,
    pub href: String,
    pub id: String,
    pub images: Vec<Image>,
    pub name: String,
    pub release_date: String,
    pub release_date_precision: String,
    pub uri: String,
    pub object_type: String,
    pub copyrights: Vec<Copyright>,
    pub genres: Vec<String>,
    pub label: String,
    pub popularity: i32,
    pub tracks: Paging<TrackSimple>,
}

/// The output row of the album crawl.
#[derive(Debug, PartialEq, Eq)]
pub struct AlbumCsv {
    pub origin_artist: String,
    pub origin_artist_genres: String,
    pub album_group: Option<String>,
    pub album_type: String,
    pub id: String,
    pub image_url: Option<String>,
    pub name: String,
    pub release_date: String,
    pub release_date_precision: String,
}

/// The image-url column: the URL of the first image, when there is one.
pub open spec fn spec_first_image_url(images: Seq<Image>) -> Option<String> {
    if images.len() == 0 {
        Option::None
    } else {
        Option::Some(images[0].url)
    }
}

impl AlbumCsv {
    /// Projects a simple album onto its output row, tagged with the
    /// artist it was enumerated under.
    pub fn extract_from(
        album_simple: AlbumSimple,
        origin_artist: String,
        origin_artist_genres: String,
    ) -> (r: AlbumCsv)
        ensures
            r.origin_artist == origin_artist,
            r.origin_artist_genres == origin_artist_genres,
            r.album_group == album_simple.album_group,
            r.album_type == album_simple.album_type,
            r.id == album_simple.id,
            r.image_url == spec_first_image_url(album_simple.images@),
            r.name == album_simple.name,
            r.release_date == album_simple.release_date,
            r.release_date_precision == album_simple.release_date_precision,
    {
        let mut images = album_simple.images;
        let image_url: Option<String> = if images.len() > 0 {
            Option::Some(images.remove(0).url)
        } else {
            Option::None
        };
        AlbumCsv {
            origin_artist,
            origin_artist_genres,
            album_group: album_simple.album_group,
            album_type: album_simple.album_type,
            id: album_simple.id,
            image_url,
            name: album_simple.name,
            release_date: album_simple.release_date,
            release_date_precision: album_simple.release_date_precision,
        }
    }
}

} // verus!
