use spotify_crawl::album_crawl::{albums_page_rows, collect_album_pages};
use spotify_crawl::album_types::{AlbumCsv, AlbumFull, AlbumSimple};
use spotify_crawl::artist_types::ArtistCsv;
use spotify_crawl::common_types::{Image, Paging};
use spotify_crawl::track_crawl::{
    album_chunk_rows, effective_genres, tracks_from_album, tracks_from_page, NextPaging,
};
use spotify_crawl::track_crawl_2::top_track_rows;
use spotify_crawl::track_types::{TrackFull, TrackSimple};

fn album(id: &str) -> AlbumSimple {
    AlbumSimple {
        album_group: Some("album".to_string()),
        album_type: "album".to_string(),
        artists: vec![],
        href: String::new(),
        id: id.to_string(),
        images: vec![Image { height: 64, url: format!("https://img/{}", id), width: 64 }],
        name: format!("album-{}", id),
        release_date: "2019-01-01".to_string(),
        release_date_precision: "day".to_string(),
        uri: String::new(),
        object_type: "album".to_string(),
    }
}

fn track(id: &str) -> TrackSimple {
    TrackSimple {
        artists: vec![],
        disc_number: 1,
        duration_ms: 1000,
        explicit: false,
        href: String::new(),
        id: id.to_string(),
        is_playable: None,
        linked_from: None,
        name: format!("track-{}", id),
        preview_url: None,
        track_number: 1,
        uri: String::new(),
        object_type: "track".to_string(),
    }
}

fn page(items: Vec<AlbumSimple>, next: Option<&str>) -> Paging<AlbumSimple> {
    Paging {
        href: String::new(),
        items,
        limit: 50,
        next: next.map(|s| s.to_string()),
        offset: 0,
        previous: None,
        total: 0,
    }
}

#[test]
fn pagination_completeness_three_pages() {
    // three pages of 50, 50 and 7 items: exactly 107 rows for the artist
    let p1 = page((0..50).map(|i| album(&format!("a{}", i))).collect(), Some("u2"));
    let p2 = page((50..100).map(|i| album(&format!("a{}", i))).collect(), Some("u3"));
    let p3 = page((100..107).map(|i| album(&format!("a{}", i))).collect(), None);
    let artist_id = "artist-1".to_string();
    let genres = "indie".to_string();
    let rows = collect_album_pages(vec![p1, p2, p3], &artist_id, &genres);
    assert_eq!(rows.len(), 107);
    assert_eq!(rows[0].id, "a0");
    assert_eq!(rows[106].id, "a106");
    assert!(rows.iter().all(|r| r.origin_artist == "artist-1"));
    assert!(rows.iter().all(|r| r.origin_artist_genres == "indie"));
}

#[test]
fn album_row_projection() {
    let rows = albums_page_rows(vec![album("x")], &"art".to_string(), &"g".to_string());
    assert_eq!(rows.len(), 1);
    let r = &rows[0];
    assert_eq!(r.origin_artist, "art");
    assert_eq!(r.origin_artist_genres, "g");
    assert_eq!(r.id, "x");
    assert_eq!(r.image_url, Some("https://img/x".to_string()));
    assert_eq!(r.name, "album-x");
    assert_eq!(r.release_date, "2019-01-01");
}

#[test]
fn album_pagination_two_track_pages() {
    // an album whose first track page of 50 items carries a next cursor
    // and whose second page of 2 items does not: 52 rows in all
    let full = AlbumFull {
        album_group: Some("album".to_string()),
        album_type: "album".to_string(),
        artists: vec![],
        href: String::new(),
        id: "alb".to_string(),
        images: vec![],
        name: "the album".to_string(),
        release_date: "2020".to_string(),
        release_date_precision: "year".to_string(),
        uri: String::new(),
        object_type: "album".to_string(),
        copyrights: vec![],
        genres: vec!["jazz".to_string()],
        label: "label".to_string(),
        popularity: 1,
        tracks: Paging {
            href: String::new(),
            items: (0..50).map(|i| track(&format!("t{}", i))).collect(),
            limit: 50,
            next: Some("https://next-page".to_string()),
            offset: 0,
            previous: None,
            total: 52,
        },
    };
    let mut pending: Vec<NextPaging> = Vec::new();
    let fallback = "fallback-genres".to_string();
    let mut rows = tracks_from_album(full, &fallback, &mut pending);
    assert_eq!(rows.len(), 50);
    assert_eq!(pending.len(), 1);
    assert_eq!(pending[0].url, "https://next-page");
    assert_eq!(pending[0].origin_album, "alb");
    assert_eq!(pending[0].origin_album_genres, "jazz");

    let next = pending.pop().unwrap();
    let second: Paging<TrackSimple> = Paging {
        href: String::new(),
        items: vec![track("t50"), track("t51")],
        limit: 50,
        next: None,
        offset: 50,
        previous: None,
        total: 52,
    };
    let more = tracks_from_page(
        second,
        &next.origin_album,
        &next.origin_album_genres,
        &mut pending,
    );
    assert_eq!(more.len(), 2);
    assert_eq!(pending.len(), 0);
    rows.extend(more);
    assert_eq!(rows.len(), 52);
    assert!(rows.iter().all(|r| r.origin_album == "alb"));
    assert!(rows.iter().all(|r| r.origin_album_or_origin_artist_genres == "jazz"));
}

#[test]
fn effective_genres_prefers_the_album_own() {
    let own = vec!["a".to_string(), "b".to_string()];
    let fallback = "fb".to_string();
    assert_eq!(effective_genres(&own, &fallback), "a, b");
    assert_eq!(effective_genres(&vec![], &fallback), "fb");
}

#[test]
fn album_chunk_falls_back_to_artist_genres() {
    let full = AlbumFull {
        album_group: None,
        album_type: "single".to_string(),
        artists: vec![],
        href: String::new(),
        id: "s1".to_string(),
        images: vec![],
        name: "s".to_string(),
        release_date: "2021".to_string(),
        release_date_precision: "year".to_string(),
        uri: String::new(),
        object_type: "album".to_string(),
        copyrights: vec![],
        genres: vec![],
        label: String::new(),
        popularity: 0,
        tracks: Paging {
            href: String::new(),
            items: vec![track("q1"), track("q2"), track("q3")],
            limit: 50,
            next: None,
            offset: 0,
            previous: None,
            total: 3,
        },
    };
    let csv = AlbumCsv {
        origin_artist: "art".to_string(),
        origin_artist_genres: "folk, pop".to_string(),
        album_group: None,
        album_type: "single".to_string(),
        id: "s1".to_string(),
        image_url: None,
        name: "s".to_string(),
        release_date: "2021".to_string(),
        release_date_precision: "year".to_string(),
    };
    let mut pending: Vec<NextPaging> = Vec::new();
    let rows = album_chunk_rows(vec![full], &vec![csv], &mut pending);
    assert_eq!(rows.len(), 3);
    assert!(rows.iter().all(|r| r.origin_album_or_origin_artist_genres == "folk, pop"));
    assert_eq!(pending.len(), 0);
}

#[test]
fn top_tracks_project_one_row_each() {
    let artist = ArtistCsv {
        id: "ar".to_string(),
        name: "the artist".to_string(),
        genres: "shoegaze".to_string(),
        popularity: 61,
    };
    let t = TrackFull {
        artists: vec![],
        disc_number: 1,
        duration_ms: 100,
        explicit: false,
        href: String::new(),
        id: "tid".to_string(),
        is_playable: None,
        linked_from: None,
        name: "song".to_string(),
        preview_url: None,
        track_number: 3,
        uri: String::new(),
        object_type: "track".to_string(),
        album: album("al"),
        popularity: 42,
    };
    let rows = top_track_rows(vec![t], &artist);
    assert_eq!(rows.len(), 1);
    let r = &rows[0];
    assert_eq!(r.track_id, "tid");
    assert_eq!(r.origin_album, "al");
    assert_eq!(r.origin_album_name, "album-al");
    assert_eq!(r.origin_artist, "ar");
    assert_eq!(r.origin_artist_name, "the artist");
    assert_eq!(r.origin_artist_genres, "shoegaze");
    assert_eq!(r.track_name, "song");
    assert_eq!(r.track_popularity, 42);
}

#[test]
fn album_chunk_stacks_next_cursors_in_order() {
    let mk_full = |id: &str, next: Option<&str>| AlbumFull {
        album_group: None,
        album_type: "album".to_string(),
        artists: vec![],
        href: String::new(),
        id: id.to_string(),
        images: vec![],
        name: id.to_string(),
        release_date: "2022".to_string(),
        release_date_precision: "year".to_string(),
        uri: String::new(),
        object_type: "album".to_string(),
        copyrights: vec![],
        genres: vec![],
        label: String::new(),
        popularity: 0,
        tracks: Paging {
            href: String::new(),
            items: vec![track(&format!("{}-t", id))],
            limit: 50,
            next: next.map(|s| s.to_string()),
            offset: 0,
            previous: None,
            total: 1,
        },
    };
    let mk_csv = |id: &str| AlbumCsv {
        origin_artist: "artist".to_string(),
        origin_artist_genres: "ambient".to_string(),
        album_group: None,
        album_type: "album".to_string(),
        id: id.to_string(),
        image_url: None,
        name: id.to_string(),
        release_date: "2022".to_string(),
        release_date_precision: "year".to_string(),
    };
    let fulls = vec![mk_full("a", Some("url-a")), mk_full("b", None), mk_full("c", Some("url-c"))];
    let csvs = vec![mk_csv("a"), mk_csv("b"), mk_csv("c")];
    let mut pending: Vec<NextPaging> = Vec::new();
    let rows = album_chunk_rows(fulls, &csvs, &mut pending);
    assert_eq!(rows.len(), 3);
    assert_eq!(pending.len(), 2);
    assert_eq!(pending[0].origin_album, "a");
    assert_eq!(pending[0].url, "url-a");
    assert_eq!(pending[0].origin_album_genres, "ambient");
    assert_eq!(pending[1].origin_album, "c");
    assert_eq!(pending[1].url, "url-c");
    // the stack is drained from the top, most recent first
    assert_eq!(pending.pop().unwrap().origin_album, "c");
}
