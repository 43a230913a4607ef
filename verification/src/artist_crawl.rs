use vstd::prelude::*;
use vstd::multiset::Multiset;
use crate::artist_types::{ArtistCsv, ArtistFull};
use crate::textops::spec_join;
use crate::artist_types::spec_popularity;

verus! {

broadcast use vstd::multiset::group_multiset_axioms;

/// Declares the concurrent insert-if-absent map the BFS marks visited
/// artist ids in.
#[verifier::external_type_specification]
#[verifier::external_body]
#[verifier::reject_recursive_types(K)]
#[verifier::reject_recursive_types(V)]
pub struct ExCHashMap<K, V>(chashmap::CHashMap<K, V>);

/// The set of artist ids a visited map holds.
pub uninterp spec fn visited_view(m: chashmap::CHashMap<String, ()>) -> Set<Seq<char>>;

/// Relies on CHashMap::new: an empty map.
#[verifier::external_body]
fn visited_new() -> (r: chashmap::CHashMap<String, ()>)
    ensures
        visited_view(r) == Set::<Seq<char>>::empty(),
{
    chashmap::CHashMap::new()
}

/// Relies on CHashMap::contains_key: whether the key has an entry.
#[verifier::external_body]
fn visited_contains(m: &chashmap::CHashMap<String, ()>, k: &String) -> (r: bool)
    ensures
        r == visited_view(*m).contains(k@),
{
    m.contains_key(k)
}

/// Relies on CHashMap::insert: replaces or inserts the entry for the key.
#[verifier::external_body]
fn visited_insert(m: &mut chashmap::CHashMap<String, ()>, k: String)
    ensures
        visited_view(*final(m)) == visited_view(*old(m)).insert(k@),
{
    let _ = m.insert(k, ());
}

/// The multiset of artists waiting in a work queue.
pub uninterp spec fn artist_queue_view(q: atomicring::AtomicRingQueue<ArtistFull>) -> Multiset<
    ArtistFull,
>;

/// The usable capacity an artist work queue was allocated with.
pub uninterp spec fn artist_queue_capacity(q: atomicring::AtomicRingQueue<ArtistFull>) -> nat;

/// Relies on AtomicRingQueue::with_capacity: allocates an empty queue; the
/// capacity is rounded up to the next power of two, of which one slot is
/// unusable, so at least `cap - 1` elements fit; panics only above
/// `(usize::MAX >> 16) + 1`.
#[verifier::external_body]
fn artist_queue_new(cap: usize) -> (r: atomicring::AtomicRingQueue<ArtistFull>)
    requires
        cap as int <= (usize::MAX as int + 1) / 0x10000,
    ensures
        artist_queue_view(r) == Multiset::<ArtistFull>::empty(),
        artist_queue_capacity(r) + 1 >= cap,
{
    atomicring::AtomicRingQueue::with_capacity(cap)
}

/// Relies on AtomicRingQueue::try_push: appends the element, or returns it
/// back if and only if the queue is full.
#[verifier::external_body]
fn artist_queue_try_push(q: &mut atomicring::AtomicRingQueue<ArtistFull>, a: ArtistFull) -> (r:
    Result<(), ArtistFull>)
    ensures
        artist_queue_capacity(*final(q)) == artist_queue_capacity(*old(q)),
        (r is Ok) == (artist_queue_view(*old(q)).len() < artist_queue_capacity(*old(q))),
        match r {
            Result::Ok(()) => artist_queue_view(*final(q)) == artist_queue_view(*old(q)).insert(a),
            Result::Err(back) => back == a && artist_queue_view(*final(q)) == artist_queue_view(
                *old(q),
            ),
        },
{
    q.try_push(a)
}

/// Relies on AtomicRingQueue::try_pop: removes and returns an element, or
/// returns None if and only if the queue is empty.
#[verifier::external_body]
fn artist_queue_try_pop(q: &mut atomicring::AtomicRingQueue<ArtistFull>) -> (r: Option<ArtistFull>)
    ensures
        artist_queue_capacity(*final(q)) == artist_queue_capacity(*old(q)),
        match r {
            Option::Some(a) => artist_queue_view(*old(q)).count(a) > 0 && artist_queue_view(
                *final(q),
            ) == artist_queue_view(*old(q)).remove(a),
            Option::None => artist_queue_view(*old(q)).len() == 0 && artist_queue_view(*final(q))
                == artist_queue_view(*old(q)),
        },
{
    q.try_pop()
}

/// What filling a queue from a list does: each element in turn is appended
/// while the queue is below its capacity and dropped otherwise.
pub open spec fn spec_fill_queue(
    items: Seq<ArtistFull>,
    q: Multiset<ArtistFull>,
    cap: nat,
) -> Multiset<ArtistFull>
    decreases items.len(),
{
    if items.len() == 0 {
        q
    } else {
        let q2 = if q.len() < cap {
            q.insert(items[0])
        } else {
            q
        };
        spec_fill_queue(items.drop_first(), q2, cap)
    }
}

/// The ids of a list of artists, as a set.
pub open spec fn spec_id_set(items: Seq<ArtistFull>) -> Set<Seq<char>>
    decreases items.len(),
{
    if items.len() == 0 {
        Set::empty()
    } else {
        spec_id_set(items.drop_first()).insert(items[0].id@)
    }
}

/// What absorbing a related-artist list does to the visited set and the
/// work queue: an artist whose id is already visited is skipped; otherwise
/// its id is marked visited and the artist is enqueued (dropped only when
/// the queue is at capacity).
pub open spec fn spec_absorb(
    vis: Set<Seq<char>>,
    q: Multiset<ArtistFull>,
    cap: nat,
    related: Seq<ArtistFull>,
) -> (Set<Seq<char>>, Multiset<ArtistFull>)
    decreases related.len(),
{
    if related.len() == 0 {
        (vis, q)
    } else {
        let a = related[0];
        if vis.contains(a.id@) {
            spec_absorb(vis, q, cap, related.drop_first())
        } else {
            let q2 = if q.len() < cap {
                q.insert(a)
            } else {
                q
            };
            spec_absorb(vis.insert(a.id@), q2, cap, related.drop_first())
        }
    }
}

/// BFS visited monotonicity: absorbing a related-artist list never removes
/// an id from the visited set, an artist whose id was already visited is
/// never enqueued by it, and no absorption enqueues the same artist twice.
pub proof fn lemma_absorb_monotonic(
    vis: Set<Seq<char>>,
    q: Multiset<ArtistFull>,
    cap: nat,
    related: Seq<ArtistFull>,
)
    ensures
        vis.subset_of(spec_absorb(vis, q, cap, related).0),
        forall|a: ArtistFull|
            vis.contains(a.id@) ==> #[trigger] spec_absorb(vis, q, cap, related).1.count(a)
                == q.count(a),
        forall|a: ArtistFull| #[trigger]
            spec_absorb(vis, q, cap, related).1.count(a) <= q.count(a) + 1,
    decreases related.len(),
{
    broadcast use vstd::set::group_set_axioms;

    if related.len() == 0 {
    } else {
        let a0 = related[0];
        let rest = related.drop_first();
        if vis.contains(a0.id@) {
            lemma_absorb_monotonic(vis, q, cap, rest);
        } else {
            let vis2 = vis.insert(a0.id@);
            let q2 = if q.len() < cap {
                q.insert(a0)
            } else {
                q
            };
            lemma_absorb_monotonic(vis2, q2, cap, rest);
            let r = spec_absorb(vis2, q2, cap, rest);
            assert forall|a: ArtistFull| vis.contains(a.id@) implies #[trigger] r.1.count(a)
                == q.count(a) by {
                assert(a != a0);
                assert(q2.count(a) == q.count(a));
                assert(vis2.contains(a.id@));
            }
            assert forall|a: ArtistFull| #[trigger] r.1.count(a) <= q.count(a) + 1 by {
                if a == a0 {
                    assert(vis2.contains(a.id@));
                    assert(r.1.count(a) == q2.count(a));
                } else {
                    assert(q2.count(a) == q.count(a));
                }
            }
        }
    }
}

/// Absorbing never invents an id: everything the visited set gains comes
/// from the absorbed list.
pub proof fn lemma_absorb_id_bound(
    vis: Set<Seq<char>>,
    q: Multiset<ArtistFull>,
    cap: nat,
    related: Seq<ArtistFull>,
)
    ensures
        spec_absorb(vis, q, cap, related).0.subset_of(vis.union(spec_id_set(related))),
    decreases related.len(),
{
    broadcast use vstd::set::group_set_axioms;

    if related.len() == 0 {
    } else {
        let a0 = related[0];
        let rest = related.drop_first();
        if vis.contains(a0.id@) {
            lemma_absorb_id_bound(vis, q, cap, rest);
        } else {
            let vis2 = vis.insert(a0.id@);
            let q2 = if q.len() < cap {
                q.insert(a0)
            } else {
                q
            };
            lemma_absorb_id_bound(vis2, q2, cap, rest);
        }
    }
}

/// What the next-step decision of a worker is.
pub enum CrawlStep {
    /// The limit is reached: the worker terminates.
    Done,
    /// The work queue is empty: the worker backs off (and eventually
    /// treats the crawl as stalled).
    Empty,
    /// An artist to expand.
    Next(ArtistFull),
}

/// The shared state of the artist BFS: the visited-id map, the work
/// queue, the processed count and the row limit.
pub struct ArtistCrawl {
    visited: chashmap::CHashMap<String, ()>,
    queue: atomicring::AtomicRingQueue<ArtistFull>,
    processed: usize,
    limit: usize,
}

impl ArtistCrawl {
    /// The ids marked visited.
    pub closed spec fn visited_ids(&self) -> Set<Seq<char>> {
        visited_view(self.visited)
    }

    /// The artists waiting to be expanded.
    pub closed spec fn queued_artists(&self) -> Multiset<ArtistFull> {
        artist_queue_view(self.queue)
    }

    /// The usable capacity of the work queue.
    pub closed spec fn queue_capacity(&self) -> nat {
        artist_queue_capacity(self.queue)
    }

    /// How many artists have been emitted.
    pub closed spec fn processed_count(&self) -> int {
        self.processed as int
    }

    /// The row limit the crawl was started with.
    pub closed spec fn crawl_limit(&self) -> int {
        self.limit as int
    }

    /// The crawl invariant: the processed count never exceeds the limit,
    /// and every queued artist was marked visited before it was enqueued.
    pub closed spec fn wf(&self) -> bool {
        &&& self.processed <= self.limit
        &&& self.visited_ids().finite()
        &&& forall|a: ArtistFull|
            #[trigger] artist_queue_view(self.queue).count(a) > 0 ==> visited_view(
                self.visited,
            ).contains(a.id@)
    }

    /// The processed count never exceeds the limit, so a crawl emits at
    /// most `limit` rows.
    pub proof fn lemma_processed_bounded(&self)
        requires
            self.wf(),
        ensures
            self.processed_count() <= self.crawl_limit(),
    {
    }

    /// Starts a crawl: marks every seed visited and enqueues it. The work
    /// queue gets one slot beyond the limit, so a small crawl still holds
    /// its seeds.
    pub fn init(seeds: Vec<ArtistFull>, limit: usize) -> (r: ArtistCrawl)
        requires
            limit as int + 1 <= (usize::MAX as int + 1) / 0x10000,
        ensures
            r.wf(),
            r.crawl_limit() == limit,
            r.processed_count() == 0,
            r.visited_ids() == spec_id_set(seeds@),
            r.queued_artists() == spec_fill_queue(
                seeds@,
                Multiset::<ArtistFull>::empty(),
                r.queue_capacity(),
            ),
            r.queue_capacity() >= limit,
    {
        broadcast use vstd::set::group_set_axioms;

        let mut visited = visited_new();
        let mut queue = artist_queue_new(limit + 1);
        let ghost all = seeds@;
        let ghost cap = artist_queue_capacity(queue);
        let mut seeds = seeds;
        while seeds.len() > 0
            invariant
                artist_queue_capacity(queue) == cap,
                spec_id_set(all) == spec_id_set(seeds@).union(visited_view(visited)),
                visited_view(visited).finite(),
                spec_fill_queue(all, Multiset::<ArtistFull>::empty(), cap) == spec_fill_queue(
                    seeds@,
                    artist_queue_view(queue),
                    cap,
                ),
                forall|a: ArtistFull|
                    #[trigger] artist_queue_view(queue).count(a) > 0 ==> visited_view(
                        visited,
                    ).contains(a.id@),
            decreases seeds@.len(),
        {
            let ghost before = seeds@;
            let seed = seeds.remove(0);
            proof {
                assert(seeds@ =~= before.drop_first());
                assert(before[0] == seed);
            }
            let id = seed.id.clone();
            let ghost vis_before = visited_view(visited);
            visited_insert(&mut visited, id);
            let ghost q_before = artist_queue_view(queue);
            let pushed = artist_queue_try_push(&mut queue, seed);
            proof {
                assert(spec_id_set(before) == spec_id_set(before.drop_first()).insert(seed.id@));
                assert(spec_id_set(all) =~= spec_id_set(seeds@).union(visited_view(visited)));
                assert(spec_fill_queue(before, q_before, cap) == spec_fill_queue(
                    seeds@,
                    artist_queue_view(queue),
                    cap,
                ));
            }
        }
        proof {
            assert(spec_id_set(Seq::<ArtistFull>::empty()) == Set::<Seq<char>>::empty());
            assert(spec_id_set(all) =~= visited_view(visited));
        }
        ArtistCrawl { visited, queue, processed: 0, limit }
    }

    /// The worker-loop entry decision: terminate once the limit is
    /// reached, otherwise take an artist off the queue if there is one.
    pub fn try_next(&mut self) -> (r: CrawlStep)
        requires
            old(self).wf(),
        ensures
            final(self).wf(),
            final(self).visited_ids() == old(self).visited_ids(),
            final(self).processed_count() == old(self).processed_count(),
            final(self).crawl_limit() == old(self).crawl_limit(),
            final(self).queue_capacity() == old(self).queue_capacity(),
            match r {
                CrawlStep::Done => {
                    &&& old(self).processed_count() >= old(self).crawl_limit()
                    &&& final(self).queued_artists() == old(self).queued_artists()
                },
                CrawlStep::Empty => {
                    &&& old(self).processed_count() < old(self).crawl_limit()
                    &&& old(self).queued_artists().len() == 0
                    &&& final(self).queued_artists() == old(self).queued_artists()
                },
                CrawlStep::Next(a) => {
                    &&& old(self).processed_count() < old(self).crawl_limit()
                    &&& old(self).queued_artists().count(a) > 0
                    &&& final(self).queued_artists() == old(self).queued_artists().remove(a)
                    &&& final(self).visited_ids().contains(a.id@)
                },
            },
    {
        if self.processed >= self.limit {
            return CrawlStep::Done;
        }
        match artist_queue_try_pop(&mut self.queue) {
            Option::Some(a) => CrawlStep::Next(a),
            Option::None => CrawlStep::Empty,
        }
    }

    /// Absorbs the related artists of one expanded artist — marking the
    /// unseen ones visited and enqueueing them — and then emits the
    /// expanded artist's row if the limit has not been reached.
    pub fn absorb_related(&mut self, artist: ArtistFull, related: Vec<ArtistFull>) -> (r: Option<
        ArtistCsv,
    >)
        requires
            old(self).wf(),
        ensures
            final(self).wf(),
            final(self).crawl_limit() == old(self).crawl_limit(),
            final(self).queue_capacity() == old(self).queue_capacity(),
            final(self).visited_ids() == spec_absorb(
                old(self).visited_ids(),
                old(self).queued_artists(),
                old(self).queue_capacity(),
                related@,
            ).0,
            final(self).queued_artists() == spec_absorb(
                old(self).visited_ids(),
                old(self).queued_artists(),
                old(self).queue_capacity(),
                related@,
            ).1,
            old(self).visited_ids().subset_of(final(self).visited_ids()),
            final(self).visited_ids().subset_of(
                old(self).visited_ids().union(spec_id_set(related@)),
            ),
            match r {
                Option::Some(c) => {
                    &&& old(self).processed_count() < old(self).crawl_limit()
                    &&& final(self).processed_count() == old(self).processed_count() + 1
                    &&& c.id == artist.id
                    &&& c.name == artist.name
                    &&& c.genres@ == spec_join(artist.genres@, ", "@)
                    &&& c.popularity as int == spec_popularity(artist.popularity)
                },
                Option::None => {
                    &&& old(self).processed_count() >= old(self).crawl_limit()
                    &&& final(self).processed_count() == old(self).processed_count()
                },
            },
    {
        broadcast use vstd::set::group_set_axioms;

        let ghost vis0 = visited_view(self.visited);
        let ghost q0 = artist_queue_view(self.queue);
        let ghost cap = artist_queue_capacity(self.queue);
        let mut related = related;
        let ghost all = related@;
        while related.len() > 0
            invariant
                self.limit == old(self).limit,
                self.processed == old(self).processed,
                artist_queue_capacity(self.queue) == cap,
                self.wf(),
                vis0.subset_of(visited_view(self.visited)),
                spec_absorb(vis0, q0, cap, all) == spec_absorb(
                    visited_view(self.visited),
                    artist_queue_view(self.queue),
                    cap,
                    related@,
                ),
            decreases related@.len(),
        {
            let ghost before = related@;
            let a = related.remove(0);
            proof {
                assert(related@ =~= before.drop_first());
                assert(before[0] == a);
            }
            if !visited_contains(&self.visited, &a.id) {
                let id = a.id.clone();
                visited_insert(&mut self.visited, id);
                let _ = artist_queue_try_push(&mut self.queue, a);
            }
        }
        proof {
            lemma_absorb_id_bound(vis0, q0, cap, all);
        }
        if self.processed < self.limit {
            self.processed = self.processed + 1;
            Option::Some(ArtistCsv::from(artist))
        } else {
            Option::None
        }
    }
}

/// The worker's wait after finding the work queue empty: one, two, four,
/// then eight seconds; a queue still empty after the eight-second wait
/// means the crawl has stalled and the worker gives up.
pub fn empty_backoff(attempt: usize) -> (r: Option<u64>)
    ensures
        r == (if attempt == 0 {
            Option::Some(1u64)
        } else if attempt == 1 {
            Option::Some(2u64)
        } else if attempt == 2 {
            Option::Some(4u64)
        } else if attempt == 3 {
            Option::Some(8u64)
        } else {
            Option::None::<u64>
        }),
{
    if attempt == 0 {
        Option::Some(1)
    } else if attempt == 1 {
        Option::Some(2)
    } else if attempt == 2 {
        Option::Some(4)
    } else if attempt == 3 {
        Option::Some(8)
    } else {
        Option::None
    }
}

/// Why a crawl run stopped.
#[derive(Debug, PartialEq, Eq, Structural)]
pub enum CrawlEnd {
    /// The processed count reached the limit: every worker terminates.
    ReachedLimit,
    /// The work queue ran dry before the limit.
    QueueEmpty,
    /// The scripted expansions ran out while work remained.
    ScriptExhausted,
}

/// The result of a crawl run: how it ended, the rows it emitted, and — as
/// ghost bookkeeping — the artists it expanded, one per emitted row.
pub struct CrawlRun {
    pub end: CrawlEnd,
    pub emitted: Vec<ArtistCsv>,
    pub expanded: Ghost<Seq<ArtistFull>>,
}

/// Every id a script of related lists can introduce.
pub open spec fn spec_script_ids(script: Seq<Vec<ArtistFull>>) -> Set<Seq<char>>
    decreases script.len(),
{
    if script.len() == 0 {
        Set::empty()
    } else {
        spec_id_set(script[0]@).union(spec_script_ids(script.drop_first()))
    }
}

/// BFS termination: drives the crawl to completion, expanding each taken
/// artist with the next scripted related list. Every taken artist is
/// expanded and emits its row (one per script entry, plus the final
/// empty-handed expansion when the script runs out), the emitted rows are
/// exactly the projections of the taken — hence visited — artists, the
/// visited set gains no id outside the script, the processed count never
/// passes the limit, and every worker terminates the moment it does.
#[verifier::loop_isolation(false)]
pub fn run_crawl(crawl: &mut ArtistCrawl, script: Vec<Vec<ArtistFull>>) -> (r: CrawlRun)
    requires
        old(crawl).wf(),
    ensures
        final(crawl).wf(),
        final(crawl).crawl_limit() == old(crawl).crawl_limit(),
        r.emitted@.len() == final(crawl).processed_count() - old(crawl).processed_count(),
        final(crawl).processed_count() <= final(crawl).crawl_limit(),
        r.end == CrawlEnd::ReachedLimit ==> final(crawl).processed_count()
            == final(crawl).crawl_limit(),
        r.end == CrawlEnd::QueueEmpty ==> final(crawl).queued_artists().len() == 0,
        r.end == CrawlEnd::ScriptExhausted ==> r.emitted@.len() == script@.len() + 1,
        r.expanded@.len() == r.emitted@.len(),
        forall|i: int|
            0 <= i < r.emitted@.len() ==> {
                &&& (#[trigger] r.emitted@[i]).id == r.expanded@[i].id
                &&& r.emitted@[i].name == r.expanded@[i].name
                &&& r.emitted@[i].genres@ == spec_join(r.expanded@[i].genres@, ", "@)
                &&& r.emitted@[i].popularity as int == spec_popularity(
                    r.expanded@[i].popularity,
                )
                &&& final(crawl).visited_ids().contains(r.expanded@[i].id@)
            },
        final(crawl).visited_ids().subset_of(
            old(crawl).visited_ids().union(spec_script_ids(script@)),
        ),
{
    broadcast use vstd::set::group_set_axioms;

    let ghost script0 = script@;
    let ghost vis0 = old(crawl).visited_ids();
    let mut script = script;
    let mut emitted: Vec<ArtistCsv> = Vec::new();
    let ghost expanded: Seq<ArtistFull> = Seq::empty();
    let ghost p0 = old(crawl).processed_count();
    loop
        invariant
            crawl.wf(),
            crawl.crawl_limit() == old(crawl).crawl_limit(),
            p0 <= crawl.processed_count(),
            emitted@.len() == crawl.processed_count() - p0,
            emitted@.len() == script0.len() - script@.len(),
            expanded.len() == emitted@.len(),
            forall|i: int|
                0 <= i < emitted@.len() ==> {
                    &&& (#[trigger] emitted@[i]).id == expanded[i].id
                    &&& emitted@[i].name == expanded[i].name
                    &&& emitted@[i].genres@ == spec_join(expanded[i].genres@, ", "@)
                    &&& emitted@[i].popularity as int == spec_popularity(expanded[i].popularity)
                    &&& crawl.visited_ids().contains(expanded[i].id@)
                },
            crawl.visited_ids().subset_of(vis0.union(spec_script_ids(script0))),
            spec_script_ids(script@).subset_of(spec_script_ids(script0)),
        decreases script@.len() + 1,
    {
        match crawl.try_next() {
            CrawlStep::Done => {
                return CrawlRun { end: CrawlEnd::ReachedLimit, emitted, expanded: Ghost(expanded) };
            },
            CrawlStep::Empty => {
                return CrawlRun { end: CrawlEnd::QueueEmpty, emitted, expanded: Ghost(expanded) };
            },
            CrawlStep::Next(artist) => {
                let ghost taken = artist;
                if script.len() == 0 {
                    // the taken artist is expanded with nothing; its own
                    // row is still emitted, as a failed expansion's is
                    proof {
                        assert(spec_id_set(Seq::<ArtistFull>::empty()) =~= Set::<Seq<char>>::empty());
                    }
                    match crawl.absorb_related(artist, Vec::new()) {
                        Option::Some(row) => {
                            emitted.push(row);
                            proof {
                                expanded = expanded.push(taken);
                            }
                        },
                        Option::None => {
                            proof {
                                assert(false);
                            }
                        },
                    }
                    return CrawlRun {
                        end: CrawlEnd::ScriptExhausted,
                        emitted,
                        expanded: Ghost(expanded),
                    };
                }
                let ghost script_before = script@;
                let related = script.remove(0);
                proof {
                    assert(script@ =~= script_before.drop_first());
                    assert(script_before[0] == related);
                    assert(spec_id_set(related@).subset_of(spec_script_ids(script_before)));
                    assert(spec_script_ids(script_before.drop_first()).subset_of(
                        spec_script_ids(script_before),
                    ));
                }
                match crawl.absorb_related(artist, related) {
                    Option::Some(row) => {
                        emitted.push(row);
                        proof {
                            expanded = expanded.push(taken);
                        }
                    },
                    Option::None => {
                        proof {
                            assert(false);
                        }
                    },
                }
            },
        }
    }
}

} // verus!
