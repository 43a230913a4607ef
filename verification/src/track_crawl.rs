use vstd::prelude::*;
use vstd::string::StringExecFns;
use crate::album_types::{AlbumCsv, AlbumFull};
use crate::common_types::Paging;
use crate::textops::{join_comma_space, spec_join};
use crate::track_types::{TrackCsv, TrackSimple};

verus! {

/// A pending page cursor of an album's track listing, with the album tag
/// and genre string its rows must carry.
pub struct NextPaging {
    pub origin_album: String,
    pub origin_album_genres: String,
    pub url: String,
}

/// The genre string an album's track rows carry: the album's own genres
/// joined with `", "`, or — when the album lists none — the genre string
/// its artist was crawled with.
pub open spec fn spec_effective_genres(album_genres: Seq<String>, fallback: Seq<char>) -> Seq<
    char,
> {
    if album_genres.len() > 0 {
        spec_join(album_genres, ", "@)
    } else {
        fallback
    }
}

/// Chooses the genre string for one album's track rows.
pub fn effective_genres(album_genres: &Vec<String>, fallback: &String) -> (r: String)
    ensures
        r@ == spec_effective_genres(album_genres@, fallback@),
{
    if album_genres.len() > 0 {
        join_comma_space(album_genres)
    } else {
        fallback.clone()
    }
}

/// The track rows of a list of simple tracks under one album tag and one
/// genre string.
pub open spec fn spec_track_rows(
    items: Seq<TrackSimple>,
    origin_album: String,
    genres: String,
) -> Seq<TrackCsv> {
    Seq::new(
        items.len(),
        |i: int|
            TrackCsv {
                origin_album: origin_album,
                origin_album_or_origin_artist_genres: genres,
                id: items[i].id,
                name: items[i].name,
                track_number: items[i].track_number,
            },
    )
}

/// Projects a list of simple tracks onto their output rows.
pub fn track_rows(items: Vec<TrackSimple>, origin_album: &String, genres: &String) -> (r: Vec<
    TrackCsv,
>)
    ensures
        r@ == spec_track_rows(items@, *origin_album, *genres),
{
    let ghost all = items@;
    let mut items = items;
    let mut rows: Vec<TrackCsv> = Vec::new();
    while items.len() > 0
        invariant
            rows@.len() + items@.len() == all.len(),
            items@ == all.skip(rows@.len() as int),
            forall|j: int|
                0 <= j < rows@.len() ==> rows@[j] == spec_track_rows(all, *origin_album, *genres)[j],
        decreases items@.len(),
    {
        let ghost before = items@;
        let track = items.remove(0);
        proof {
            assert(items@ =~= before.drop_first());
            assert(before[0] == track);
            assert(all.skip(rows@.len() as int).drop_first() =~= all.skip(rows@.len() as int + 1));
        }
        let row = TrackCsv::extract_from(track, origin_album.clone(), genres.clone());
        rows.push(row);
    }
    proof {
        assert(rows@ =~= spec_track_rows(all, *origin_album, *genres));
    }
    rows
}

/// Whether `rows` are exactly the rows of `items` under the album tag
/// `origin_album` and a genre string whose characters are `genres`.
pub open spec fn spec_rows_match(
    items: Seq<TrackSimple>,
    origin_album: String,
    genres: Seq<char>,
    rows: Seq<TrackCsv>,
) -> bool {
    &&& rows.len() == items.len()
    &&& forall|i: int|
        0 <= i < rows.len() ==> {
            &&& (#[trigger] rows[i]).origin_album == origin_album
            &&& rows[i].origin_album_or_origin_artist_genres@ == genres
            &&& rows[i].id == items[i].id
            &&& rows[i].name == items[i].name
            &&& rows[i].track_number == items[i].track_number
        }
}

/// Whether `pending` is exactly the cursor that `next` demands under the
/// given album tag and genre string: one entry for a `Some`, none for a
/// `None`.
pub open spec fn spec_pending_match(
    next: Option<String>,
    origin_album: String,
    genres: Seq<char>,
    pending: Seq<NextPaging>,
) -> bool {
    match next {
        Option::Some(url) => pending.len() == 1 && pending[0].origin_album == origin_album
            && pending[0].origin_album_genres@ == genres && pending[0].url == url,
        Option::None => pending.len() == 0,
    }
}

/// Emits the rows of one album's first track page and stacks its next
/// cursor, if any, for a later fetch.
pub fn tracks_from_album(album: AlbumFull, fallback_genres: &String, pending: &mut Vec<NextPaging>)
    -> (r: Vec<TrackCsv>)
    ensures
        spec_rows_match(
            album.tracks.items@,
            album.id,
            spec_effective_genres(album.genres@, fallback_genres@),
            r@,
        ),
        final(pending)@.len() >= old(pending)@.len(),
        final(pending)@.take(old(pending)@.len() as int) == old(pending)@,
        spec_pending_match(
            album.tracks.next,
            album.id,
            spec_effective_genres(album.genres@, fallback_genres@),
            final(pending)@.skip(old(pending)@.len() as int),
        ),
    {
        let genres = effective_genres(&album.genres, fallback_genres);
        let ghost pending0 = pending@;
        match &album.tracks.next {
            Option::Some(url) => {
                pending.push(
                    NextPaging {
                        origin_album: album.id.clone(),
                        origin_album_genres: genres.clone(),
                        url: url.clone(),
                    },
                );
                proof {
                    assert(pending@.take(pending0.len() as int) =~= pending0);
                    assert(pending@.skip(pending0.len() as int) =~= seq![
                        pending@[pending0.len() as int],
                    ]);
                }
            },
            Option::None => {
                proof {
                    assert(pending@.take(pending0.len() as int) =~= pending0);
                    assert(pending@.skip(pending0.len() as int) =~= Seq::<NextPaging>::empty());
                }
            },
        }
        let rows = track_rows(album.tracks.items, &album.id, &genres);
        rows
    }

/// Emits the rows of one later track page of an album and stacks the
/// page's next cursor, if any.
pub fn tracks_from_page(
    page: Paging<TrackSimple>,
    origin_album: &String,
    genres: &String,
    pending: &mut Vec<NextPaging>,
) -> (r: Vec<TrackCsv>)
    ensures
        r@ == spec_track_rows(page.items@, *origin_album, *genres),
        final(pending)@.len() >= old(pending)@.len(),
        final(pending)@.take(old(pending)@.len() as int) == old(pending)@,
        spec_pending_match(
            page.next,
            *origin_album,
            genres@,
            final(pending)@.skip(old(pending)@.len() as int),
        ),
{
    let ghost pending0 = pending@;
    match &page.next {
        Option::Some(url) => {
            pending.push(
                NextPaging {
                    origin_album: origin_album.clone(),
                    origin_album_genres: genres.clone(),
                    url: url.clone(),
                },
            );
            proof {
                assert(pending@.take(pending0.len() as int) =~= pending0);
                assert(pending@.skip(pending0.len() as int) =~= seq![
                    pending@[pending0.len() as int],
                ]);
            }
        },
        Option::None => {
            proof {
                assert(pending@.take(pending0.len() as int) =~= pending0);
                assert(pending@.skip(pending0.len() as int) =~= Seq::<NextPaging>::empty());
            }
        },
    }
    track_rows(page.items, origin_album, genres)
}

/// How many first-page track rows a chunk of albums carries: the albums
/// are consumed in step with their crawled rows, stopping at the shorter
/// list, and each contributes its first page of tracks.
pub open spec fn spec_chunk_total(fulls: Seq<AlbumFull>, csvs: Seq<AlbumCsv>) -> int
    decreases fulls.len(),
{
    if fulls.len() == 0 || csvs.len() == 0 {
        0
    } else {
        fulls[0].tracks.items@.len() + spec_chunk_total(fulls.drop_first(), csvs.drop_first())
    }
}

/// Whether `rows` are exactly the first-page rows of a chunk of albums
/// zipped with their crawled rows: per album, its tracks under its
/// effective genre string, in chunk order.
pub open spec fn spec_chunk_rows_match(
    fulls: Seq<AlbumFull>,
    csvs: Seq<AlbumCsv>,
    rows: Seq<TrackCsv>,
) -> bool
    decreases fulls.len(),
{
    if fulls.len() == 0 || csvs.len() == 0 {
        rows.len() == 0
    } else {
        let n = fulls[0].tracks.items@.len() as int;
        &&& rows.len() >= n
        &&& spec_rows_match(
            fulls[0].tracks.items@,
            fulls[0].id,
            spec_effective_genres(fulls[0].genres@, csvs[0].origin_artist_genres@),
            rows.take(n),
        )
        &&& spec_chunk_rows_match(fulls.drop_first(), csvs.drop_first(), rows.skip(n))
    }
}


/// Whether `pend` is exactly the stack of next cursors a chunk leaves
/// behind: per album with a next URL, one entry carrying its tag and
/// effective genre string, in chunk order.
pub open spec fn spec_chunk_pendings_match(
    fulls: Seq<AlbumFull>,
    csvs: Seq<AlbumCsv>,
    pend: Seq<NextPaging>,
) -> bool
    decreases fulls.len(),
{
    if fulls.len() == 0 || csvs.len() == 0 {
        pend.len() == 0
    } else {
        let g = spec_effective_genres(fulls[0].genres@, csvs[0].origin_artist_genres@);
        match fulls[0].tracks.next {
            Option::Some(url) => {
                &&& pend.len() >= 1
                &&& pend[0].origin_album == fulls[0].id
                &&& pend[0].origin_album_genres@ == g
                &&& pend[0].url == url
                &&& spec_chunk_pendings_match(
                    fulls.drop_first(),
                    csvs.drop_first(),
                    pend.drop_first(),
                )
            },
            Option::None => spec_chunk_pendings_match(fulls.drop_first(), csvs.drop_first(), pend),
        }
    }
}

/// Emits the first-page track rows of a chunk of fetched albums, zipped
/// with the crawled album rows that carry their artist's genre fallback,
/// stacking every next cursor met along the way.
pub fn album_chunk_rows(
    albums_full: Vec<AlbumFull>,
    albums_csv: &Vec<AlbumCsv>,
    pending: &mut Vec<NextPaging>,
) -> (r: Vec<TrackCsv>)
    ensures
        spec_chunk_rows_match(albums_full@, albums_csv@, r@),
        final(pending)@.len() >= old(pending)@.len(),
        final(pending)@.take(old(pending)@.len() as int) == old(pending)@,
        spec_chunk_pendings_match(
            albums_full@,
            albums_csv@,
            final(pending)@.skip(old(pending)@.len() as int),
        ),
{
    proof {
        assert(albums_csv@.skip(0) =~= albums_csv@);
    }
    album_chunk_rows_from(albums_full, albums_csv, 0, pending)
}

/// The recursion behind `album_chunk_rows`, consuming the crawled rows
/// from index `k` on.
fn album_chunk_rows_from(
    albums_full: Vec<AlbumFull>,
    albums_csv: &Vec<AlbumCsv>,
    k: usize,
    pending: &mut Vec<NextPaging>,
) -> (r: Vec<TrackCsv>)
    requires
        k <= albums_csv@.len(),
    ensures
        spec_chunk_rows_match(albums_full@, albums_csv@.skip(k as int), r@),
        final(pending)@.len() >= old(pending)@.len(),
        final(pending)@.take(old(pending)@.len() as int) == old(pending)@,
        spec_chunk_pendings_match(
            albums_full@,
            albums_csv@.skip(k as int),
            final(pending)@.skip(old(pending)@.len() as int),
        ),
    decreases albums_full@.len(),
{
    let ghost fulls0 = albums_full@;
    let ghost pending0 = pending@;
    let mut fulls = albums_full;
    if fulls.len() == 0 || k == albums_csv.len() {
        proof {
            assert(pending@.skip(pending0.len() as int) =~= Seq::<NextPaging>::empty());
        }
        return Vec::new();
    }
    let album = fulls.remove(0);
    proof {
        assert(fulls@ =~= fulls0.drop_first());
        assert(fulls0[0] == album);
        assert(albums_csv@.skip(k as int)[0] == albums_csv@[k as int]);
        assert(albums_csv@.skip(k as int).drop_first() =~= albums_csv@.skip(k as int + 1));
    }
    let ghost n = album.tracks.items@.len() as int;
    let fallback = &albums_csv[k].origin_artist_genres;
    let mut seg = tracks_from_album(album, fallback, pending);
    let ghost pending1 = pending@;
    let mut rest = album_chunk_rows_from(fulls, albums_csv, k + 1, pending);
    proof {
        assert(pending@.take(pending0.len() as int) =~= pending0) by {
            assert(pending@.take(pending1.len() as int) == pending1);
            assert(pending1.take(pending0.len() as int) == pending0);
            assert(forall|i: int|
                0 <= i < pending0.len() ==> pending@.take(pending1.len() as int)[i] == pending@[i]);
        }
    }
    proof {
        let appended = pending@.skip(pending0.len() as int);
        let first_pend = pending1.skip(pending0.len() as int);
        let rest_pend = pending@.skip(pending1.len() as int);
        assert(appended =~= first_pend + rest_pend) by {
            assert(forall|i: int|
                0 <= i < pending1.len() ==> pending@.take(pending1.len() as int)[i]
                    == pending@[i]);
        }
        match fulls0[0].tracks.next {
            Option::Some(_) => {
                assert(first_pend.len() == 1);
                assert(appended[0] == first_pend[0]);
                assert(appended.drop_first() =~= rest_pend);
            },
            Option::None => {
                assert(first_pend.len() == 0);
                assert(appended =~= rest_pend);
            },
        }
    }
    let ghost seg0 = seg@;
    let ghost rest0 = rest@;
    seg.append(&mut rest);
    proof {
        assert(seg@ == seg0 + rest0);
        assert(seg0.len() == n);
        assert(seg@.take(n) =~= seg0);
        assert(seg@.skip(n) =~= rest0);
    }
    seg
}

} // verus!
