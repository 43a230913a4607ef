use vstd::prelude::*;
use vstd::string::StringExecFns;
use crate::album_types::{AlbumCsv, AlbumSimple, spec_first_image_url};
use crate::common_types::Paging;

verus! {

/// The output row one simple album projects to under a given artist.
pub open spec fn spec_album_row(
    album: AlbumSimple,
    origin_artist: String,
    origin_artist_genres: String,
) -> AlbumCsv {
    AlbumCsv {
        origin_artist: origin_artist,
        origin_artist_genres: origin_artist_genres,
        album_group: album.album_group,
        album_type: album.album_type,
        id: album.id,
        image_url: spec_first_image_url(album.images@),
        name: album.name,
        release_date: album.release_date,
        release_date_precision: album.release_date_precision,
    }
}

/// The rows of one page of an artist's album listing.
pub open spec fn spec_album_page_rows(
    items: Seq<AlbumSimple>,
    origin_artist: String,
    origin_artist_genres: String,
) -> Seq<AlbumCsv> {
    Seq::new(items.len(), |i: int| spec_album_row(items[i], origin_artist, origin_artist_genres))
}

/// The rows of a whole walk over an artist's album pages, in page order.
pub open spec fn spec_album_pages_rows(
    pages: Seq<Paging<AlbumSimple>>,
    origin_artist: String,
    origin_artist_genres: String,
) -> Seq<AlbumCsv>
    decreases pages.len(),
{
    if pages.len() == 0 {
        Seq::empty()
    } else {
        spec_album_page_rows(pages[0].items@, origin_artist, origin_artist_genres)
            + spec_album_pages_rows(pages.drop_first(), origin_artist, origin_artist_genres)
    }
}

/// How many items a walk over pages carries in total.
pub open spec fn spec_pages_item_total(pages: Seq<Paging<AlbumSimple>>) -> int
    decreases pages.len(),
{
    if pages.len() == 0 {
        0
    } else {
        pages[0].items@.len() + spec_pages_item_total(pages.drop_first())
    }
}

/// Pagination completeness: walking an artist's album pages yields exactly
/// one row per item of every page.
pub proof fn lemma_pagination_completeness(
    pages: Seq<Paging<AlbumSimple>>,
    origin_artist: String,
    origin_artist_genres: String,
)
    ensures
        spec_album_pages_rows(pages, origin_artist, origin_artist_genres).len()
            == spec_pages_item_total(pages),
    decreases pages.len(),
{
    if pages.len() == 0 {
    } else {
        lemma_pagination_completeness(pages.drop_first(), origin_artist, origin_artist_genres);
    }
}

/// Projects one page of an artist's album listing onto its output rows.
pub fn albums_page_rows(
    items: Vec<AlbumSimple>,
    origin_artist: &String,
    origin_artist_genres: &String,
) -> (r: Vec<AlbumCsv>)
    ensures
        r@ == spec_album_page_rows(items@, *origin_artist, *origin_artist_genres),
{
    let ghost all = items@;
    let mut items = items;
    let mut rows: Vec<AlbumCsv> = Vec::new();
    while items.len() > 0
        invariant
            rows@.len() + items@.len() == all.len(),
            items@ == all.skip(rows@.len() as int),
            forall|j: int|
                0 <= j < rows@.len() ==> rows@[j] == spec_album_row(
                    all[j],
                    *origin_artist,
                    *origin_artist_genres,
                ),
        decreases items@.len(),
    {
        let ghost before = items@;
        let album = items.remove(0);
        proof {
            assert(items@ =~= before.drop_first());
            assert(before[0] == album);
            assert(all.skip(rows@.len() as int).drop_first() =~= all.skip(rows@.len() as int + 1));
        }
        let row = AlbumCsv::extract_from(
            album,
            origin_artist.clone(),
            origin_artist_genres.clone(),
        );
        rows.push(row);
    }
    proof {
        assert(rows@ =~= spec_album_page_rows(all, *origin_artist, *origin_artist_genres));
    }
    rows
}

/// Projects a whole walk over an artist's album pages onto its output
/// rows, in page order — one row per item of every page.
pub fn collect_album_pages(
    pages: Vec<Paging<AlbumSimple>>,
    origin_artist: &String,
    origin_artist_genres: &String,
) -> (r: Vec<AlbumCsv>)
    ensures
        r@ == spec_album_pages_rows(pages@, *origin_artist, *origin_artist_genres),
        r@.len() == spec_pages_item_total(pages@),
{
    let ghost all = pages@;
    let mut pages = pages;
    let mut rows: Vec<AlbumCsv> = Vec::new();
    while pages.len() > 0
        invariant
            spec_album_pages_rows(all, *origin_artist, *origin_artist_genres) == rows@
                + spec_album_pages_rows(pages@, *origin_artist, *origin_artist_genres),
        decreases pages@.len(),
    {
        let ghost before = pages@;
        let page = pages.remove(0);
        proof {
            assert(pages@ =~= before.drop_first());
            assert(before[0] == page);
        }
        let mut page_rows = albums_page_rows(page.items, origin_artist, origin_artist_genres);
        rows.append(&mut page_rows);
    }
    proof {
        assert(spec_album_pages_rows(
            Seq::<Paging<AlbumSimple>>::empty(),
            *origin_artist,
            *origin_artist_genres,
        ) =~= Seq::<AlbumCsv>::empty());
        assert(rows@ + Seq::<AlbumCsv>::empty() =~= rows@);
        lemma_pagination_completeness(all, *origin_artist, *origin_artist_genres);
    }
    rows
}

} // verus!
