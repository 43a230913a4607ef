use spotify_crawl::album_types::{AlbumCsv, AlbumSimple};
use spotify_crawl::artist_types::{ArtistCsv, ArtistFull, Followers};
use spotify_crawl::common_types::{Image, SimpleError};
use spotify_crawl::numtext::{parse_i64, render_i64};
use spotify_crawl::textops::{encode_query, join_comma, join_comma_space};
use spotify_crawl::track_types::{TrackCsv, TrackSimple};
use spotify_crawl::urls::{
    album_tracks_url, album_url, albums_url, artist_albums_url, artist_related_artists_url,
    artist_top_tracks_url, artist_url, artists_url, audio_analysis_url, audio_features_bulk_url,
    audio_features_url, search_url, track_url, tracks_url,
};

fn artist_full(id: &str, popularity: Option<i32>, genres: Vec<&str>) -> ArtistFull {
    ArtistFull {
        href: String::new(),
        id: id.to_string(),
        name: format!("name-{}", id),
        uri: String::new(),
        object_type: "artist".to_string(),
        followers: Followers { href: None, total: 0 },
        genres: genres.into_iter().map(|g| g.to_string()).collect(),
        images: vec![],
        popularity,
    }
}

#[test]
fn artist_row_joins_genres_and_defaults_popularity() {
    let row = ArtistCsv::from(artist_full("i1", None, vec!["a", "b", "c"]));
    assert_eq!(row.id, "i1");
    assert_eq!(row.genres, "a, b, c");
    assert_eq!(row.popularity, -1);
    let row2 = ArtistCsv::from(artist_full("i2", Some(88), vec![]));
    assert_eq!(row2.popularity, 88);
    assert_eq!(row2.genres, "");
}

#[test]
fn album_row_takes_the_first_image() {
    let simple = AlbumSimple {
        album_group: None,
        album_type: "album".to_string(),
        artists: vec![],
        href: String::new(),
        id: "al".to_string(),
        images: vec![
            Image { height: 640, url: "first".to_string(), width: 640 },
            Image { height: 64, url: "second".to_string(), width: 64 },
        ],
        name: "n".to_string(),
        release_date: "1999-09-09".to_string(),
        release_date_precision: "day".to_string(),
        uri: String::new(),
        object_type: "album".to_string(),
    };
    let row = AlbumCsv::extract_from(simple, "artist".to_string(), "g".to_string());
    assert_eq!(row.image_url, Some("first".to_string()));
    assert_eq!(row.origin_artist, "artist");
}

#[test]
fn track_row_carries_the_album_tag() {
    let t = TrackSimple {
        artists: vec![],
        disc_number: 1,
        duration_ms: 1,
        explicit: true,
        href: String::new(),
        id: "t".to_string(),
        is_playable: None,
        linked_from: None,
        name: "nm".to_string(),
        preview_url: None,
        track_number: 9,
        uri: String::new(),
        object_type: "track".to_string(),
    };
    let row = TrackCsv::extract_from(t, "alb".to_string(), "gen".to_string());
    assert_eq!(row.origin_album, "alb");
    assert_eq!(row.origin_album_or_origin_artist_genres, "gen");
    assert_eq!(row.track_number, 9);
}

#[test]
fn csv_round_trip_preserves_rows_in_order() {
    // write a batch of artist rows through a CSV writer and read them
    // back: the same structs come out, in the same order
    let rows: Vec<ArtistCsv> = (0..25)
        .map(|i| ArtistCsv {
            id: format!("id{}", i),
            name: format!("Name, the {}th \"great\"", i),
            genres: "g1, g2".to_string(),
            popularity: i - 5,
        })
        .collect();
    let mut writer = csv::Writer::from_writer(Vec::new());
    writer.write_record(&["id", "name", "genres", "popularity"]).unwrap();
    for row in &rows {
        writer.write_record(&row.to_record()).unwrap();
    }
    let bytes = writer.into_inner().unwrap();

    let mut reader = csv::Reader::from_reader(&bytes[..]);
    let mut read_back: Vec<ArtistCsv> = Vec::new();
    for record in reader.records() {
        let record = record.unwrap();
        let fields: Vec<String> = record.iter().map(|f| f.to_string()).collect();
        read_back.push(ArtistCsv::from_record(&fields).unwrap());
    }
    assert_eq!(rows, read_back);
}

#[test]
fn record_projection_round_trips_each_row() {
    let row = ArtistCsv {
        id: "x".to_string(),
        name: "y".to_string(),
        genres: "".to_string(),
        popularity: -1,
    };
    let rec = row.to_record();
    assert_eq!(rec, vec!["x", "y", "", "-1"]);
    assert_eq!(ArtistCsv::from_record(&rec), Some(row));
}

#[test]
fn from_record_rejects_malformed_records() {
    let short = vec!["a".to_string(), "b".to_string()];
    assert_eq!(ArtistCsv::from_record(&short), None);
    let bad_number =
        vec!["a".to_string(), "b".to_string(), "c".to_string(), "5x".to_string()];
    assert_eq!(ArtistCsv::from_record(&bad_number), None);
    let padded = vec!["a".to_string(), "b".to_string(), "c".to_string(), "007".to_string()];
    assert_eq!(ArtistCsv::from_record(&padded), None);
    let huge =
        vec!["a".to_string(), "b".to_string(), "c".to_string(), "99999999999".to_string()];
    assert_eq!(ArtistCsv::from_record(&huge), None);
}

#[test]
fn decimal_rendering_and_parsing() {
    assert_eq!(render_i64(0), "0");
    assert_eq!(render_i64(-1), "-1");
    assert_eq!(render_i64(1234567), "1234567");
    assert_eq!(render_i64(i64::MIN), "-9223372036854775808");
    assert_eq!(parse_i64("0"), Some(0));
    assert_eq!(parse_i64("-9223372036854775808"), Some(i64::MIN));
    assert_eq!(parse_i64("9223372036854775807"), Some(i64::MAX));
    assert_eq!(parse_i64("9223372036854775808"), None);
    assert_eq!(parse_i64("-0"), None);
    assert_eq!(parse_i64("01"), None);
    assert_eq!(parse_i64(""), None);
    assert_eq!(parse_i64("-"), None);
    assert_eq!(parse_i64("12a"), None);
}

#[test]
fn endpoint_urls_match_the_wire_protocol() {
    assert_eq!(artist_url("X"), "https://api.spotify.com/v1/artists/X/");
    assert_eq!(
        artist_albums_url("X"),
        "https://api.spotify.com/v1/artists/X/albums/?include_groups=album,single,compilation&country=US"
    );
    assert_eq!(artist_top_tracks_url("X"), "https://api.spotify.com/v1/artists/X/top-tracks/?country=US");
    assert_eq!(artist_related_artists_url("X"), "https://api.spotify.com/v1/artists/X/related-artists/");
    assert_eq!(
        artists_url(&vec!["a".to_string(), "b".to_string()]),
        "https://api.spotify.com/v1/artists/?ids=a,b"
    );
    assert_eq!(album_url("A"), "https://api.spotify.com/v1/albums/A/");
    assert_eq!(album_tracks_url("A"), "https://api.spotify.com/v1/albums/A/tracks/");
    assert_eq!(albums_url(&vec!["q".to_string()]), "https://api.spotify.com/v1/albums/?ids=q");
    assert_eq!(track_url("T"), "https://api.spotify.com/v1/tracks/T/");
    assert_eq!(
        tracks_url(&vec!["t1".to_string(), "t2".to_string(), "t3".to_string()]),
        "https://api.spotify.com/v1/tracks/?ids=t1,t2,t3"
    );
    assert_eq!(audio_analysis_url("T"), "https://api.spotify.com/v1/audio-analysis/T/");
    assert_eq!(audio_features_url("T"), "https://api.spotify.com/v1/audio-features/T/");
    assert_eq!(
        audio_features_bulk_url(&vec!["t".to_string()]),
        "https://api.spotify.com/v1/audio-features/?ids=t"
    );
}

#[test]
fn search_url_encodes_only_spaces() {
    assert_eq!(
        search_url("Car Seat Headrest", "artist"),
        "https://api.spotify.com/v1/search/?q=Car%20Seat%20Headrest&type=artist"
    );
    assert_eq!(
        search_url("Sigur Rós & co?", "album"),
        "https://api.spotify.com/v1/search/?q=Sigur%20Rós%20&%20co?&type=album"
    );
}

#[test]
fn join_helpers() {
    assert_eq!(join_comma(&vec!["a".to_string(), "b".to_string()]), "a,b");
    assert_eq!(join_comma(&vec![]), "");
    assert_eq!(join_comma_space(&vec!["x".to_string()]), "x");
    assert_eq!(encode_query("no-spaces"), "no-spaces");
    assert_eq!(encode_query(" "), "%20");
}

#[test]
fn simple_error_carries_its_message() {
    let e = SimpleError::new("boom".to_string());
    assert_eq!(e.to_message(), "boom");
}
