use spotify_crawl::client::{
    ClientRing, ConfigError, ProxyAddr, ProxySlot, SpotifyClient, SpotifyClientWithToken,
};

fn credential(name: &str, token: &str) -> SpotifyClientWithToken {
    SpotifyClientWithToken::new(
        token.to_string(),
        SpotifyClient {
            name: name.to_string(),
            id: format!("id-{}", name),
            secret: format!("secret-{}", name),
        },
    )
}

fn proxy(last_octet: u8) -> ProxySlot {
    ProxySlot::Proxied(ProxyAddr { octet0: 10, octet1: 0, octet2: 0, octet3: last_octet, port: 8080 })
}

#[test]
fn ring_init_pairs_credentials_with_proxies() {
    let clients = vec![credential("a", "t1"), credential("b", "t2"), credential("c", "t3")];
    let proxies = vec![proxy(1), proxy(2), proxy(3), proxy(4)];
    let ring = ClientRing::init(clients, proxies).unwrap();
    // three credentials: one current, two queued, none sleeping
    assert_eq!(ring.queued_count(), 2);
    assert_eq!(ring.sleeping_count(), 0);
    let front = ring.front();
    assert_eq!(front.with_token.client.name, "a");
    assert_eq!(front.with_token.token, "t1");
    assert_eq!(front.proxy, proxy(1));
}

#[test]
fn ring_init_requires_credentials() {
    let r = ClientRing::init(vec![], vec![ProxySlot::Direct]);
    assert!(matches!(r, Err(ConfigError::NoClients)));
}

#[test]
fn ring_init_requires_a_slot() {
    let r = ClientRing::init(vec![credential("a", "t1")], vec![]);
    assert!(matches!(r, Err(ConfigError::NoProxies)));
}

#[test]
fn ring_conservation_through_rotations() {
    // ring conservation: current + queued + sleeping stays equal to the
    // number of credentials through any mix of rotations
    let clients = vec![credential("a", "t1"), credential("b", "t2"), credential("c", "t3")];
    let proxies = vec![proxy(1), proxy(2), proxy(3)];
    let mut ring = ClientRing::init(clients, proxies).unwrap();
    assert_eq!(1 + ring.queued_count() + ring.sleeping_count(), 3);

    ring.sleep_front_and_get_next(5);
    assert_eq!(1 + ring.queued_count() + ring.sleeping_count(), 3);
    assert_eq!(ring.sleeping_count(), 1);
    assert_eq!(ring.sleeping_secs(0), 5);

    ring.refresh_front_and_get_next(Some("t9".to_string()));
    assert_eq!(1 + ring.queued_count() + ring.sleeping_count(), 3);

    ring.wake(0);
    assert_eq!(1 + ring.queued_count() + ring.sleeping_count(), 3);
    assert_eq!(ring.sleeping_count(), 0);
}

#[test]
fn proxy_conservation_through_refreshes() {
    // proxy conservation: with P >= N, paired slots (one per credential)
    // plus free slots always add up to P
    let clients = vec![credential("a", "t1"), credential("b", "t2")];
    let proxies = vec![proxy(1), proxy(2), proxy(3), proxy(4), proxy(5)];
    let mut ring = ClientRing::init(clients, proxies).unwrap();
    // two paired, three free
    for _ in 0..7 {
        ring.refresh_front_and_get_next(None);
        assert_eq!(1 + ring.queued_count() + ring.sleeping_count(), 2);
    }
}

#[test]
fn refresh_keeps_old_token_when_fetch_failed() {
    // a failed token fetch during refresh is non-fatal: the credential
    // re-enters the ring with its previous token
    let clients = vec![credential("a", "t1")];
    let proxies = vec![ProxySlot::Direct, ProxySlot::Direct];
    let mut ring = ClientRing::init(clients, proxies).unwrap();
    ring.refresh_front_and_get_next(None);
    let front = ring.front();
    assert_eq!(front.with_token.token, "t1");
    assert_eq!(front.with_token.client.name, "a");
}

#[test]
fn refresh_installs_new_token() {
    let clients = vec![credential("a", "t1")];
    let proxies = vec![ProxySlot::Direct];
    let mut ring = ClientRing::init(clients, proxies).unwrap();
    ring.refresh_front_and_get_next(Some("t2".to_string()));
    let front = ring.front();
    assert_eq!(front.with_token.token, "t2");
}

#[test]
fn sleep_hands_out_the_next_identity() {
    let clients = vec![credential("a", "t1"), credential("b", "t2")];
    let proxies = vec![ProxySlot::Direct];
    let mut ring = ClientRing::init(clients, proxies).unwrap();
    assert_eq!(ring.front().with_token.client.name, "a");
    ring.sleep_front_and_get_next(3);
    assert_eq!(ring.front().with_token.client.name, "b");
    ring.wake(0);
    assert_eq!(ring.queued_count(), 1);
}
