use vstd::prelude::*;
use crate::artist_types::ArtistCsv;
use crate::track_types::{TrackCsv2, TrackFull};

verus! {

/// The output rows of an artist's top tracks.
pub open spec fn spec_top_track_rows(tracks: Seq<TrackFull>, artist: ArtistCsv) -> Seq<TrackCsv2> {
    Seq::new(
        tracks.len(),
        |i: int|
            TrackCsv2 {
                track_id: tracks[i].id,
                origin_album: tracks[i].album.id,
                origin_album_name: tracks[i].album.name,
                origin_artist: artist.id,
                origin_artist_name: artist.name,
                origin_artist_genres: artist.genres,
                track_name: tracks[i].name,
                track_popularity: tracks[i].popularity,
            },
    )
}

/// Projects an artist's top tracks onto their output rows, one per track.
pub fn top_track_rows(tracks: Vec<TrackFull>, artist: &ArtistCsv) -> (r: Vec<TrackCsv2>)
    ensures
        r@ == spec_top_track_rows(tracks@, *artist),
{
    let ghost all = tracks@;
    let mut tracks = tracks;
    let mut rows: Vec<TrackCsv2> = Vec::new();
    while tracks.len() > 0
        invariant
            rows@.len() + tracks@.len() == all.len(),
            tracks@ == all.skip(rows@.len() as int),
            forall|j: int|
                0 <= j < rows@.len() ==> rows@[j] == spec_top_track_rows(all, *artist)[j],
        decreases tracks@.len(),
    {
        let ghost before = tracks@;
        let track = tracks.remove(0);
        proof {
            assert(tracks@ =~= before.drop_first());
            assert(before[0] == track);
            assert(all.skip(rows@.len() as int).drop_first() =~= all.skip(rows@.len() as int + 1));
        }
        let row = TrackCsv2::extract_from(track, artist);
        rows.push(row);
    }
    proof {
        assert(rows@ =~= spec_top_track_rows(all, *artist));
    }
    rows
}

} // verus!
