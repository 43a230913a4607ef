use vstd::prelude::*;
use vstd::multiset::Multiset;

verus! {

broadcast use vstd::multiset::group_multiset_axioms, vstd::seq_lib::group_to_multiset_ensures;

/// One application credential, as read from the credentials file.
pub struct SpotifyClient {
    pub name: String,
    pub id: String,
    pub secret: String,
}

impl SpotifyClient {
    /// A field-for-field copy of the credential.
    pub fn duplicate(&self) -> (r: SpotifyClient)
        ensures
            r == *self,
    {
        SpotifyClient { name: self.name.clone(), id: self.id.clone(), secret: self.secret.clone() }
    }
}

/// A credential together with the bearer token obtained for it.
pub struct SpotifyClientWithToken {
    pub token: String,
    pub client: SpotifyClient,
}

impl SpotifyClientWithToken {
    /// Pairs a credential with its token.
    pub fn new(token: String, client: SpotifyClient) -> (r: SpotifyClientWithToken)
        ensures
            r.token == token,
            r.client == client,
    {
        SpotifyClientWithToken { token, client }
    }
}

/// An IPv4 proxy endpoint.
#[derive(Clone, Copy, Debug, PartialEq, Eq, Structural)]
pub struct ProxyAddr {
    pub octet0: u8,
    pub octet1: u8,
    pub octet2: u8,
    pub octet3: u8,
    pub port: u16,
}

/// An egress slot: either a proxy endpoint or the direct connection.
#[derive(Clone, Copy, Debug, PartialEq, Eq, Structural)]
pub enum ProxySlot {
    Direct,
    Proxied(ProxyAddr),
}

/// One identity of the ring: a credentialed token bound to an egress slot.
pub struct ClientEntry {
    pub with_token: SpotifyClientWithToken,
    pub proxy: ProxySlot,
}

impl ClientEntry {
    /// A field-for-field copy of the entry.
    pub fn duplicate(&self) -> (r: ClientEntry)
        ensures
            r == *self,
    {
        ClientEntry {
            with_token: SpotifyClientWithToken {
                token: self.with_token.token.clone(),
                client: self.with_token.client.duplicate(),
            },
            proxy: self.proxy,
        }
    }
}

/// Declares the bounded MPMC queue the identities and the free proxy
/// slots rotate through.
#[verifier::external_type_specification]
#[verifier::external_body]
#[verifier::reject_recursive_types(T)]
pub struct ExAtomicRingQueue<T>(atomicring::AtomicRingQueue<T>);

/// The multiset of entries held by an identity queue.
pub uninterp spec fn client_queue_view(q: atomicring::AtomicRingQueue<ClientEntry>) -> Multiset<
    ClientEntry,
>;

/// The usable capacity an identity queue was allocated with.
pub uninterp spec fn client_queue_capacity(q: atomicring::AtomicRingQueue<ClientEntry>) -> nat;

/// The multiset of slots held by a free-proxy queue.
pub uninterp spec fn proxy_queue_view(q: atomicring::AtomicRingQueue<ProxySlot>) -> Multiset<
    ProxySlot,
>;

/// The usable capacity a free-proxy queue was allocated with.
pub uninterp spec fn proxy_queue_capacity(q: atomicring::AtomicRingQueue<ProxySlot>) -> nat;

/// Relies on AtomicRingQueue::with_capacity: allocates an empty queue; the
/// capacity is rounded up to the next power of two, of which one slot is
/// unusable, so at least `cap - 1` elements fit; panics only above
/// `(usize::MAX >> 16) + 1`.
#[verifier::external_body]
fn client_queue_new(cap: usize) -> (r: atomicring::AtomicRingQueue<ClientEntry>)
    requires
        cap as int <= (usize::MAX as int + 1) / 0x10000,
    ensures
        client_queue_view(r) == Multiset::<ClientEntry>::empty(),
        client_queue_capacity(r) + 1 >= cap,
{
    atomicring::AtomicRingQueue::with_capacity(cap)
}

/// Relies on AtomicRingQueue::try_push: appends the element, or returns it
/// back if and only if the queue is full.
#[verifier::external_body]
fn client_queue_try_push(q: &mut atomicring::AtomicRingQueue<ClientEntry>, e: ClientEntry) -> (r:
    Result<(), ClientEntry>)
    ensures
        client_queue_capacity(*final(q)) == client_queue_capacity(*old(q)),
        match r {
            Result::Ok(()) => client_queue_view(*final(q)) == client_queue_view(*old(q)).insert(e),
            Result::Err(back) => back == e && client_queue_view(*final(q)) == client_queue_view(
                *old(q),
            ),
        },
        client_queue_view(*old(q)).len() < client_queue_capacity(*old(q)) ==> r is Ok,
{
    q.try_push(e)
}

/// Relies on AtomicRingQueue::pop: removes and returns an element; blocks
/// while the queue is empty, so it is only called on a nonempty one.
#[verifier::external_body]
fn client_queue_pop(q: &mut atomicring::AtomicRingQueue<ClientEntry>) -> (r: ClientEntry)
    requires
        client_queue_view(*old(q)).len() > 0,
    ensures
        client_queue_capacity(*final(q)) == client_queue_capacity(*old(q)),
        client_queue_view(*old(q)).count(r) > 0,
        client_queue_view(*final(q)) == client_queue_view(*old(q)).remove(r),
{
    q.pop()
}

/// Relies on AtomicRingQueue::len: the number of stored elements.
#[verifier::external_body]
fn client_queue_len(q: &atomicring::AtomicRingQueue<ClientEntry>) -> (r: usize)
    ensures
        r as nat == client_queue_view(*q).len(),
{
    q.len()
}

/// Relies on AtomicRingQueue::with_capacity, as for the identity queue.
#[verifier::external_body]
fn proxy_queue_new(cap: usize) -> (r: atomicring::AtomicRingQueue<ProxySlot>)
    requires
        cap as int <= (usize::MAX as int + 1) / 0x10000,
    ensures
        proxy_queue_view(r) == Multiset::<ProxySlot>::empty(),
        proxy_queue_capacity(r) + 1 >= cap,
{
    atomicring::AtomicRingQueue::with_capacity(cap)
}

/// Relies on AtomicRingQueue::try_push, as for the identity queue.
#[verifier::external_body]
fn proxy_queue_try_push(q: &mut atomicring::AtomicRingQueue<ProxySlot>, e: ProxySlot) -> (r: Result<
    (),
    ProxySlot,
>)
    ensures
        proxy_queue_capacity(*final(q)) == proxy_queue_capacity(*old(q)),
        match r {
            Result::Ok(()) => proxy_queue_view(*final(q)) == proxy_queue_view(*old(q)).insert(e),
            Result::Err(back) => back == e && proxy_queue_view(*final(q)) == proxy_queue_view(
                *old(q),
            ),
        },
        proxy_queue_view(*old(q)).len() < proxy_queue_capacity(*old(q)) ==> r is Ok,
{
    q.try_push(e)
}

/// Relies on AtomicRingQueue::pop, as for the identity queue.
#[verifier::external_body]
fn proxy_queue_pop(q: &mut atomicring::AtomicRingQueue<ProxySlot>) -> (r: ProxySlot)
    requires
        proxy_queue_view(*old(q)).len() > 0,
    ensures
        proxy_queue_capacity(*final(q)) == proxy_queue_capacity(*old(q)),
        proxy_queue_view(*old(q)).count(r) > 0,
        proxy_queue_view(*final(q)) == proxy_queue_view(*old(q)).remove(r),
{
    q.pop()
}

/// A startup failure: the configuration cannot form a ring.
#[derive(Debug, PartialEq, Eq, Structural)]
pub enum ConfigError {
    /// The credentials list is empty.
    NoClients,
    /// The proxy-slot list is empty (a direct slot stands in when
    /// proxying is disabled).
    NoProxies,
}

/// The pairing of credentials with proxy slots: credential `i` is bound
/// to slot `i % P`.
pub open spec fn spec_pairing(
    clients: Seq<SpotifyClientWithToken>,
    proxies: Seq<ProxySlot>,
) -> Seq<ClientEntry> {
    Seq::new(
        clients.len(),
        |i: int| ClientEntry { with_token: clients[i], proxy: proxies[i % (proxies.len() as int)] },
    )
}

/// The rotating pool of credentialed identities. One identity is current;
/// the rest wait in the identity queue or cool down in the sleeping list;
/// free proxy slots wait in their own queue.
pub struct ClientRing {
    current: ClientEntry,
    ring: atomicring::AtomicRingQueue<ClientEntry>,
    sleeping: Vec<(u64, ClientEntry)>,
    proxies: atomicring::AtomicRingQueue<ProxySlot>,
    num_clients: usize,
    num_slots: usize,
}

impl ClientRing {
    /// The identity currently serving requests.
    pub closed spec fn current_entry(&self) -> ClientEntry {
        self.current
    }

    /// The identities waiting in the queue.
    pub closed spec fn queued_entries(&self) -> Multiset<ClientEntry> {
        client_queue_view(self.ring)
    }

    /// The identities cooling down, with their cooldown in seconds.
    pub closed spec fn sleeping_entries(&self) -> Seq<(u64, ClientEntry)> {
        self.sleeping@
    }

    /// The proxy slots not currently paired with any identity.
    pub closed spec fn free_proxies(&self) -> Multiset<ProxySlot> {
        proxy_queue_view(self.proxies)
    }

    /// The number of credentials the ring was built over.
    pub closed spec fn client_count(&self) -> int {
        self.num_clients as int
    }

    /// The number of proxy slots in circulation: paired ones plus free ones.
    pub closed spec fn slot_count(&self) -> int {
        self.num_slots as int
    }

    /// The ring invariant: every identity is in exactly one place, every
    /// slot is paired or free, and the queues have room for every rotation.
    pub closed spec fn wf(&self) -> bool {
        &&& self.num_clients >= 1
        &&& 1 + client_queue_view(self.ring).len() + self.sleeping@.len()
            == self.num_clients as int
        &&& self.num_clients as int + proxy_queue_view(self.proxies).len()
            == self.num_slots as int
        &&& client_queue_capacity(self.ring) >= self.num_clients as int
        &&& proxy_queue_capacity(self.proxies) >= self.num_slots - self.num_clients + 1
    }

    /// Ring conservation: at every observable moment the current identity,
    /// the queued identities and the sleeping identities together account
    /// for exactly the number of credentials.
    pub proof fn lemma_ring_conservation(&self)
        requires
            self.wf(),
        ensures
            1 + self.queued_entries().len() + self.sleeping_entries().len() == self.client_count(),
    {
    }

    /// Proxy conservation: the slots paired into identities (one per
    /// credential) and the free-proxy queue together account for exactly
    /// the slots the ring was initialized with; when the ring was built
    /// with at least as many proxies as credentials, that total is the
    /// number of proxies.
    pub proof fn lemma_proxy_conservation(&self)
        requires
            self.wf(),
        ensures
            self.client_count() + self.free_proxies().len() == self.slot_count(),
    {
    }

    /// Builds the ring: pairs each credential with a proxy slot (cycling
    /// through the slots), makes the first pair current, queues the rest,
    /// and queues the slots left unpaired.
    pub fn init(clients: Vec<SpotifyClientWithToken>, proxies: Vec<ProxySlot>) -> (r: Result<
        ClientRing,
        ConfigError,
    >)
        requires
            2 * (clients@.len() + proxies@.len()) <= (usize::MAX as int + 1) / 0x10000,
        ensures
            match r {
                Result::Ok(ring) => {
                    &&& clients@.len() >= 1
                    &&& proxies@.len() >= 1
                    &&& ring.wf()
                    &&& ring.client_count() == clients@.len()
                    &&& ring.queued_entries().insert(ring.current_entry()) == spec_pairing(
                        clients@,
                        proxies@,
                    ).to_multiset()
                    &&& ring.sleeping_entries().len() == 0
                    &&& ring.free_proxies() == proxies@.skip(
                        if proxies@.len() > clients@.len() {
                            clients@.len() as int
                        } else {
                            proxies@.len() as int
                        },
                    ).to_multiset()
                    &&& proxies@.len() >= clients@.len() ==> ring.slot_count() == proxies@.len()
                },
                Result::Err(e) => {
                    &&& (e == ConfigError::NoClients <==> clients@.len() == 0)
                    &&& (e == ConfigError::NoProxies <==> clients@.len() >= 1 && proxies@.len()
                        == 0)
                },
            },
    {
        let n = clients.len();
        let p = proxies.len();
        if n == 0 {
            return Result::Err(ConfigError::NoClients);
        }
        if p == 0 {
            return Result::Err(ConfigError::NoProxies);
        }
        let ghost all_clients = clients@;
        let ghost pairing = spec_pairing(all_clients, proxies@);

        let mut ring = client_queue_new(2 * n);
        let mut free = proxy_queue_new(2 * (n + p));

        let mut clients = clients;
        let first_proxy = proxies[0];
        let first = clients.remove(0);
        let current = ClientEntry { with_token: first, proxy: first_proxy };
        proof {
            assert(pairing[0] == current) by {
                assert(0int % (proxies@.len() as int) == 0);
            }
            assert(pairing.take(1) =~= seq![current]);
            assert(Seq::<ClientEntry>::empty().push(current).to_multiset()
                == Seq::<ClientEntry>::empty().to_multiset().insert(current));
            assert(Seq::<ClientEntry>::empty().push(current) =~= pairing.take(1));
        }

        let mut i: usize = 1;
        while i < n
            invariant
                1 <= i <= n,
                n == all_clients.len(),
                p == proxies@.len(),
                1 <= p,
                2 * (n + p) <= (usize::MAX as int + 1) / 0x10000,
                clients@ == all_clients.skip(i as int),
                pairing == spec_pairing(all_clients, proxies@),
                client_queue_capacity(ring) + 1 >= 2 * n,
                client_queue_view(ring).insert(current) == pairing.take(i as int).to_multiset(),
                client_queue_view(ring).len() == i - 1,
            decreases n - i,
        {
            let proxy = proxies[i % p];
            let c = clients.remove(0);
            proof {
                assert(all_clients.skip(i as int)[0] == all_clients[i as int]);
                assert(all_clients.skip(i as int).skip(1) =~= all_clients.skip(i + 1));
            }
            let entry = ClientEntry { with_token: c, proxy };
            proof {
                assert(pairing[i as int] == entry);
            }
            let pushed = client_queue_try_push(&mut ring, entry);
            proof {
                assert(pairing.take(i + 1) =~= pairing.take(i as int).push(entry));
                assert(pairing.take(i + 1).to_multiset() == pairing.take(
                    i as int,
                ).to_multiset().insert(entry));
                assert(client_queue_view(ring).insert(current) == client_queue_view(ring).insert(
                    current,
                ));
            }
            match pushed {
                Result::Ok(()) => {
                    proof {
                        assert(client_queue_view(ring).insert(current) =~= pairing.take(
                            i + 1,
                        ).to_multiset());
                    }
                },
                Result::Err(_) => {
                    proof {
                        assert(false);
                    }
                },
            }
            i = i + 1;
        }
        proof {
            assert(pairing.take(n as int) =~= pairing);
        }

        let mut j: usize = if p > n {
            n
        } else {
            p
        };
        let ghost free_from = j as int;
        let mut slots: usize = n;
        while j < p
            invariant
                free_from <= j <= p,
                p == proxies@.len(),
                2 * (n + p) <= (usize::MAX as int + 1) / 0x10000,
                1 <= n,
                free_from == if p > n {
                    n as int
                } else {
                    p as int
                },
                slots as int == n + (j - free_from),
                proxy_queue_capacity(free) + 1 >= 2 * (n + p),
                proxy_queue_view(free) == proxies@.subrange(free_from, j as int).to_multiset(),
                proxy_queue_view(free).len() == j - free_from,
            decreases p - j,
        {
            let slot = proxies[j];
            let pushed = proxy_queue_try_push(&mut free, slot);
            proof {
                assert(proxies@.subrange(free_from, j + 1) =~= proxies@.subrange(
                    free_from,
                    j as int,
                ).push(slot));
            }
            match pushed {
                Result::Ok(()) => {
                },
                Result::Err(_) => {
                    proof {
                        assert(false);
                    }
                },
            }
            j = j + 1;
            slots = slots + 1;
        }
        proof {
            assert(proxies@.subrange(free_from, p as int) =~= proxies@.skip(free_from));
        }

        Result::Ok(
            ClientRing {
                current,
                ring,
                sleeping: Vec::new(),
                proxies: free,
                num_clients: n,
                num_slots: slots,
            },
        )
    }

    /// A handle to the current identity. Pure read; no rotation.
    pub fn front(&self) -> (r: ClientEntry)
        ensures
            r == self.current_entry(),
    {
        self.current.duplicate()
    }

    /// How many identities wait in the queue.
    pub fn queued_count(&self) -> (r: usize)
        ensures
            r as int == self.queued_entries().len(),
    {
        client_queue_len(&self.ring)
    }

    /// How many identities are cooling down.
    pub fn sleeping_count(&self) -> (r: usize)
        ensures
            r as int == self.sleeping_entries().len(),
    {
        self.sleeping.len()
    }

    /// The cooldown, in seconds, the identity at `i` was parked with.
    pub fn sleeping_secs(&self, i: usize) -> (r: u64)
        requires
            i < self.sleeping_entries().len(),
        ensures
            r == self.sleeping_entries()[i as int].0,
    {
        self.sleeping[i].0
    }

    /// Takes the current identity out of service for `secs` seconds and
    /// replaces it from the queue. The caller's timer later returns the
    /// parked identity through `wake`. The nonempty-queue precondition
    /// renders the blocking pop this rotation otherwise makes: a caller
    /// holding the ring's only identity waits the cooldown out itself
    /// instead of rotating.
    pub fn sleep_front_and_get_next(&mut self, secs: u64)
        requires
            old(self).wf(),
            old(self).queued_entries().len() >= 1,
        ensures
            final(self).wf(),
            final(self).sleeping_entries() == old(self).sleeping_entries().push(
                (secs, old(self).current_entry()),
            ),
            old(self).queued_entries().count(final(self).current_entry()) > 0,
            final(self).queued_entries() == old(self).queued_entries().remove(
                final(self).current_entry(),
            ),
            final(self).free_proxies() == old(self).free_proxies(),
            final(self).client_count() == old(self).client_count(),
            final(self).slot_count() == old(self).slot_count(),
    {
        let mut next = client_queue_pop(&mut self.ring);
        core::mem::swap(&mut self.current, &mut next);
        self.sleeping.push((secs, next));
    }

    /// Returns the parked identity at `i` to the queue, as the caller's
    /// timer does when the cooldown has elapsed.
    pub fn wake(&mut self, i: usize)
        requires
            old(self).wf(),
            i < old(self).sleeping_entries().len(),
        ensures
            final(self).wf(),
            final(self).sleeping_entries() == old(self).sleeping_entries().remove(i as int),
            final(self).queued_entries() == old(self).queued_entries().insert(
                old(self).sleeping_entries()[i as int].1,
            ),
            final(self).current_entry() == old(self).current_entry(),
            final(self).free_proxies() == old(self).free_proxies(),
            final(self).client_count() == old(self).client_count(),
            final(self).slot_count() == old(self).slot_count(),
    {
        let (_secs, entry) = self.sleeping.remove(i);
        let pushed = client_queue_try_push(&mut self.ring, entry);
        match pushed {
            Result::Ok(()) => {
            },
            Result::Err(_) => {
                proof {
                    assert(false);
                }
            },
        }
    }

    /// Rotates the current identity out on a 401: its slot returns to the
    /// free-proxy queue, a fresh slot is drawn, the credential re-enters
    /// the queue bound to that slot and carrying `new_token` — or its old
    /// token when the token fetch failed and `new_token` is `None` — and
    /// the current identity is replaced from the queue.
    pub fn refresh_front_and_get_next(&mut self, new_token: Option<String>)
        requires
            old(self).wf(),
        ensures
            final(self).wf(),
            final(self).sleeping_entries() == old(self).sleeping_entries(),
            final(self).client_count() == old(self).client_count(),
            final(self).slot_count() == old(self).slot_count(),
            exists|p: ProxySlot|
                #[trigger] spec_refresh_rotation(*old(self), *final(self), new_token, p),
    {
        let ghost pre = *self;
        let freed = self.current.proxy;
        let pushed_proxy = proxy_queue_try_push(&mut self.proxies, freed);
        match pushed_proxy {
            Result::Ok(()) => {
            },
            Result::Err(_) => {
                proof {
                    assert(false);
                }
            },
        }
        let fresh = proxy_queue_pop(&mut self.proxies);
        let token = match new_token {
            Option::Some(t) => t,
            Option::None => self.current.with_token.token.clone(),
        };
        let refreshed = ClientEntry {
            with_token: SpotifyClientWithToken {
                token,
                client: self.current.with_token.client.duplicate(),
            },
            proxy: fresh,
        };
        proof {
            assert(refreshed == spec_refreshed_entry(pre.current_entry(), new_token, fresh));
        }
        let pushed = client_queue_try_push(&mut self.ring, refreshed);
        match pushed {
            Result::Ok(()) => {
            },
            Result::Err(_) => {
                proof {
                    assert(false);
                }
            },
        }
        let mut next = client_queue_pop(&mut self.ring);
        core::mem::swap(&mut self.current, &mut next);
        proof {
            assert(spec_refresh_rotation(pre, *self, new_token, fresh));
        }
    }
}

/// The identity the refresh rotation rebuilds: the previous credential,
/// the token the refresh obtained (the previous one when the token fetch
/// failed), and the freshly drawn slot.
pub open spec fn spec_refreshed_entry(
    prev: ClientEntry,
    new_token: Option<String>,
    slot: ProxySlot,
) -> ClientEntry {
    ClientEntry {
        with_token: SpotifyClientWithToken {
            token: match new_token {
                Option::Some(t) => t,
                Option::None => prev.with_token.token,
            },
            client: prev.with_token.client,
        },
        proxy: slot,
    }
}

/// The refresh rotation of the ring, as one step from `pre` to `post`
/// drawing the slot `p`: the current identity's slot joins the free pool
/// and `p` is drawn from that pool; the rebuilt identity joins the queue
/// and the new current identity is taken from it.
pub open spec fn spec_refresh_rotation(
    pre: ClientRing,
    post: ClientRing,
    new_token: Option<String>,
    p: ProxySlot,
) -> bool {
    let returned = pre.free_proxies().insert(pre.current_entry().proxy);
    let refreshed = spec_refreshed_entry(pre.current_entry(), new_token, p);
    let queued = pre.queued_entries().insert(refreshed);
    &&& returned.count(p) > 0
    &&& post.free_proxies() == returned.remove(p)
    &&& queued.count(post.current_entry()) > 0
    &&& post.queued_entries() == queued.remove(post.current_entry())
}

} // verus!
