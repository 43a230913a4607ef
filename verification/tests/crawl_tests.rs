use spotify_crawl::artist_crawl::{empty_backoff, ArtistCrawl, CrawlStep};
use spotify_crawl::artist_types::{ArtistCsv, ArtistFull, Followers};

fn artist(id: &str, genres: Vec<&str>) -> ArtistFull {
    ArtistFull {
        href: format!("https://api.spotify.com/v1/artists/{}/", id),
        id: id.to_string(),
        name: format!("name-{}", id),
        uri: format!("spotify:artist:{}", id),
        object_type: "artist".to_string(),
        followers: Followers { href: None, total: 7 },
        genres: genres.into_iter().map(|g| g.to_string()).collect(),
        images: vec![],
        popularity: Some(50),
    }
}

#[test]
fn seed_expansion_single_seed_limit_one() {
    // one seed, limit one: exactly one row, carrying the seed's id
    let mut crawl = ArtistCrawl::init(vec![artist("R", vec!["rock"])], 1);
    let mut rows: Vec<ArtistCsv> = Vec::new();
    loop {
        match crawl.try_next() {
            CrawlStep::Done => break,
            CrawlStep::Empty => break,
            CrawlStep::Next(a) => {
                if let Some(row) = crawl.absorb_related(a, vec![]) {
                    rows.push(row);
                }
            },
        }
    }
    assert_eq!(rows.len(), 1);
    assert_eq!(rows[0].id, "R");
    assert_eq!(rows[0].genres, "rock");
    assert_eq!(rows[0].popularity, 50);
}

#[test]
fn bfs_visited_prevents_second_enqueue() {
    // the same related artist reported twice is enqueued once
    let mut crawl = ArtistCrawl::init(vec![artist("seed", vec![])], 10);
    let first = match crawl.try_next() {
        CrawlStep::Next(a) => a,
        _ => panic!("expected the seed"),
    };
    let emitted = crawl.absorb_related(first, vec![artist("X", vec![]), artist("X", vec![])]);
    assert!(emitted.is_some());
    // drain: only one X may come out
    let mut popped = 0;
    loop {
        match crawl.try_next() {
            CrawlStep::Next(a) => {
                assert_eq!(a.id, "X");
                popped += 1;
                crawl.absorb_related(a, vec![]);
            },
            _ => break,
        }
    }
    assert_eq!(popped, 1);
}

#[test]
fn bfs_termination_on_clique() {
    // a clique of 100 artists, one seed, limit 10: the crawl emits
    // exactly the limit and stops (within the tolerated overshoot bound)
    let limit = 10;
    let clique: Vec<String> = (0..100).map(|i| format!("A{}", i)).collect();
    let mut crawl = ArtistCrawl::init(vec![artist("A0", vec![])], limit);
    let mut emits = 0;
    loop {
        match crawl.try_next() {
            CrawlStep::Done => break,
            CrawlStep::Empty => panic!("clique crawl must not run dry before the limit"),
            CrawlStep::Next(a) => {
                let related: Vec<ArtistFull> =
                    clique.iter().map(|id| artist(id, vec![])).collect();
                if crawl.absorb_related(a, related).is_some() {
                    emits += 1;
                }
            },
        }
    }
    assert!(emits >= limit);
    assert!(emits <= limit + 3);
    assert_eq!(emits, limit);
}

#[test]
fn bfs_limit_is_never_exceeded() {
    let limit = 3;
    let mut crawl = ArtistCrawl::init(
        vec![artist("s1", vec![]), artist("s2", vec![]), artist("s3", vec![]), artist("s4", vec![])],
        limit,
    );
    let mut emits = 0;
    loop {
        match crawl.try_next() {
            CrawlStep::Next(a) => {
                if crawl.absorb_related(a, vec![]).is_some() {
                    emits += 1;
                }
            },
            _ => break,
        }
    }
    assert_eq!(emits, limit);
}

#[test]
fn empty_backoff_doubles_then_stalls() {
    assert_eq!(empty_backoff(0), Some(1));
    assert_eq!(empty_backoff(1), Some(2));
    assert_eq!(empty_backoff(2), Some(4));
    assert_eq!(empty_backoff(3), Some(8));
    assert_eq!(empty_backoff(4), None);
    assert_eq!(empty_backoff(100), None);
}

#[test]
fn run_crawl_reaches_the_limit_on_a_clique() {
    // a clique of 100 artists, one seed, limit 10: the run emits the limit
    // exactly (within the tolerated band of ten to thirteen) and ends with
    // the workers terminating
    let limit = 10;
    let clique: Vec<String> = (0..100).map(|i| format!("A{}", i)).collect();
    let mut crawl = spotify_crawl::artist_crawl::ArtistCrawl::init(vec![artist("A0", vec![])], limit);
    let script: Vec<Vec<ArtistFull>> = (0..limit)
        .map(|_| clique.iter().map(|id| artist(id, vec![])).collect())
        .collect();
    let run = spotify_crawl::artist_crawl::run_crawl(&mut crawl, script);
    assert!(matches!(run.end, spotify_crawl::artist_crawl::CrawlEnd::ReachedLimit));
    assert!(run.emitted.len() >= limit && run.emitted.len() <= limit + 3);
    assert_eq!(run.emitted.len(), limit);
}

#[test]
fn run_crawl_reports_a_dry_queue() {
    let mut crawl = spotify_crawl::artist_crawl::ArtistCrawl::init(vec![artist("s", vec![])], 5);
    let run = spotify_crawl::artist_crawl::run_crawl(&mut crawl, vec![vec![]]);
    assert!(matches!(run.end, spotify_crawl::artist_crawl::CrawlEnd::QueueEmpty));
    assert_eq!(run.emitted.len(), 1);
    assert_eq!(run.emitted[0].id, "s");
}

#[test]
fn run_crawl_seed_expansion() {
    // one seed with id "R", limit one: the run reaches the limit with
    // exactly one row, and that row carries the seed's id
    let mut crawl = spotify_crawl::artist_crawl::ArtistCrawl::init(vec![artist("R", vec![])], 1);
    let run = spotify_crawl::artist_crawl::run_crawl(&mut crawl, vec![vec![]]);
    assert!(matches!(run.end, spotify_crawl::artist_crawl::CrawlEnd::ReachedLimit));
    assert_eq!(run.emitted.len(), 1);
    assert_eq!(run.emitted[0].id, "R");
}

#[test]
fn run_crawl_script_exhaustion_still_emits_the_taken_artist() {
    // the script runs out while work remains: every script entry emitted
    // one row and the final empty-handed expansion emits one more
    let mut crawl = spotify_crawl::artist_crawl::ArtistCrawl::init(
        vec![artist("a", vec![]), artist("b", vec![]), artist("c", vec![])],
        10,
    );
    let run = spotify_crawl::artist_crawl::run_crawl(&mut crawl, vec![vec![]]);
    assert!(matches!(run.end, spotify_crawl::artist_crawl::CrawlEnd::ScriptExhausted));
    assert_eq!(run.emitted.len(), 2);
}
