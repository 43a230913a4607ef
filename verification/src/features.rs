use vstd::prelude::*;

verus! {

/// Audio times and sample values are carried as scaled integers (a fixed
/// number of steps per whole unit), so the reducer is exact and
/// deterministic. A sample never exceeds this magnitude.
pub const SAMPLE_BOUND: i64 = 0x4000_0000;

/// A time (start or duration) never exceeds this magnitude.
pub const TIME_BOUND: i64 = 0x4000_0000_0000;

/// A section of a track's audio analysis; only the fields the reducer
/// consumes are carried.
pub struct Section {
    pub start: i64,
    pub duration: i64,
    pub key: i32,
}

impl Section {
    /// Bounded times and a key in the pitch-class range.
    pub open spec fn wf(&self) -> bool {
        &&& -TIME_BOUND <= self.start <= TIME_BOUND
        &&& 0 <= self.duration <= TIME_BOUND
        &&& 0 <= self.key < 12
    }
}

/// A segment of a track's audio analysis: its time interval and its
/// twelve pitch and twelve timbre samples.
pub struct Segment {
    pub start: i64,
    pub duration: i64,
    pub pitches: Vec<i64>,
    pub timbre: Vec<i64>,
}

impl Segment {
    /// Bounded times and exactly twelve bounded samples per family.
    pub open spec fn wf(&self) -> bool {
        &&& -TIME_BOUND <= self.start <= TIME_BOUND
        &&& 0 <= self.duration <= TIME_BOUND
        &&& self.pitches@.len() == 12
        &&& self.timbre@.len() == 12
        &&& forall|i: int|
            0 <= i < 12 ==> -SAMPLE_BOUND <= #[trigger] self.pitches@[i] <= SAMPLE_BOUND
        &&& forall|i: int|
            0 <= i < 12 ==> -SAMPLE_BOUND <= #[trigger] self.timbre@[i] <= SAMPLE_BOUND
    }
}

/// The parts of an audio analysis the reducer consumes.
pub struct AudioAnalysis {
    pub sections: Vec<Section>,
    pub segments: Vec<Segment>,
}

impl AudioAnalysis {
    pub open spec fn wf(&self) -> bool {
        &&& forall|i: int| 0 <= i < self.sections@.len() ==> (#[trigger] self.sections@[i]).wf()
        &&& forall|i: int| 0 <= i < self.segments@.len() ==> (#[trigger] self.segments@[i]).wf()
    }
}

/// The per-track scalar features, as the features endpoint reports them;
/// the fractional ones are carried as scaled integers.
pub struct AudioFeatures {
    pub acousticness: i64,
    pub danceability: i64,
    pub duration_ms: i32,
    pub energy: i64,
    pub id: String,
    pub instrumentalness: i64,
    pub key: i32,
    pub liveness: i64,
    pub loudness: i64,
    pub mode: i32,
    pub speechiness: i64,
    pub tempo: i64,
    pub time_signature: i32,
    pub valence: i64,
}

/// The length of the overlap of the interval `[ss, ss + sd]` with
/// `[cs, cs + cd]`, never negative.
pub open spec fn spec_overlap(ss: int, sd: int, cs: int, cd: int) -> int {
    let lo = if ss >= cs {
        ss
    } else {
        cs
    };
    let hi = if ss + sd <= cs + cd {
        ss + sd
    } else {
        cs + cd
    };
    if hi - lo >= 0 {
        hi - lo
    } else {
        0
    }
}

/// The scan behind the key lookup: walks the remaining sections keeping
/// the first section of maximal overlap seen so far.
pub open spec fn spec_key_scan(
    sections: Seq<Section>,
    ss: int,
    sd: int,
    best_prom: int,
    best_key: int,
) -> int
    decreases sections.len(),
{
    if sections.len() == 0 {
        best_key
    } else {
        let prom = spec_overlap(ss, sd, sections[0].start as int, sections[0].duration as int);
        if prom > best_prom {
            spec_key_scan(sections.drop_first(), ss, sd, prom, sections[0].key as int)
        } else {
            spec_key_scan(sections.drop_first(), ss, sd, best_prom, best_key)
        }
    }
}

/// The key of the section a segment overlaps most (the first such section
/// on ties), or 0 when there are no sections.
pub open spec fn spec_segment_key(sections: Seq<Section>, ss: int, sd: int) -> int {
    if sections.len() == 0 {
        0
    } else {
        spec_key_scan(
            sections.drop_first(),
            ss,
            sd,
            spec_overlap(ss, sd, sections[0].start as int, sections[0].duration as int),
            sections[0].key as int,
        )
    }
}

impl Segment {
    /// Finds the key of this segment's containing section: the section
    /// with the largest overlap wins, the first one on ties.
    pub fn get_key(&self, sections: &Vec<Section>) -> (r: i32)
        requires
            self.wf(),
            forall|i: int| 0 <= i < sections@.len() ==> (#[trigger] sections@[i]).wf(),
        ensures
            r as int == spec_segment_key(sections@, self.start as int, self.duration as int),
            0 <= r < 12,
    {
        if sections.len() == 0 {
            return 0;
        }
        let ghost all = sections@;
        let first = &sections[0];
        let mut best_prom: i64 = overlap_len(self.start, self.duration, first.start, first.duration);
        let mut best_key: i32 = first.key;
        let mut i: usize = 1;
        while i < sections.len()
            invariant
                1 <= i <= all.len(),
                sections@ == all,
                self.wf(),
                forall|j: int| 0 <= j < all.len() ==> (#[trigger] all[j]).wf(),
                0 <= best_key < 12,
                0 <= best_prom <= 4 * TIME_BOUND,
                spec_segment_key(all, self.start as int, self.duration as int) == spec_key_scan(
                    all.skip(i as int),
                    self.start as int,
                    self.duration as int,
                    best_prom as int,
                    best_key as int,
                ),
            decreases all.len() - i,
        {
            let sec = &sections[i];
            let prom = overlap_len(self.start, self.duration, sec.start, sec.duration);
            proof {
                assert(all.skip(i as int)[0] == all[i as int]);
                assert(all.skip(i as int).drop_first() =~= all.skip(i as int + 1));
            }
            if prom > best_prom {
                best_prom = prom;
                best_key = sec.key;
            }
            i = i + 1;
        }
        proof {
            assert(all.skip(all.len() as int) =~= Seq::<Section>::empty());
        }
        best_key
    }
}

/// The overlap of two bounded time intervals, clamped at zero.
fn overlap_len(ss: i64, sd: i64, cs: i64, cd: i64) -> (r: i64)
    requires
        -TIME_BOUND <= ss <= TIME_BOUND,
        0 <= sd <= TIME_BOUND,
        -TIME_BOUND <= cs <= TIME_BOUND,
        0 <= cd <= TIME_BOUND,
    ensures
        r as int == spec_overlap(ss as int, sd as int, cs as int, cd as int),
        0 <= r <= 4 * TIME_BOUND,
{
    let lo = if ss >= cs {
        ss
    } else {
        cs
    };
    let hi = if ss + sd <= cs + cd {
        ss + sd
    } else {
        cs + cd
    };
    if hi >= lo {
        hi - lo
    } else {
        0
    }
}

/// A twelve-sample vector rotated left by `k`: position `i` takes the
/// sample at `(i + k) % len`.
pub open spec fn spec_rotate(p: Seq<i64>, k: int) -> Seq<i64> {
    Seq::new(p.len(), |i: int| p[(i + k) % (p.len() as int)])
}

/// Rotates a segment's pitch vector left by its containing section's key.
pub fn adjust_pitches(pitches: &mut Vec<i64>, key: i32)
    requires
        old(pitches)@.len() == 12,
        0 <= key < 12,
    ensures
        final(pitches)@ == spec_rotate(old(pitches)@, key as int),
{
    let mut rotated: Vec<i64> = Vec::new();
    let mut i: usize = 0;
    while i < 12
        invariant
            old(pitches)@.len() == 12,
            pitches@ == old(pitches)@,
            0 <= key < 12,
            i <= 12,
            rotated@.len() == i,
            forall|j: int| 0 <= j < i ==> rotated@[j] == spec_rotate(old(pitches)@, key as int)[j],
        decreases 12 - i,
    {
        let idx = (i + (key as usize)) % 12;
        rotated.push(pitches[idx]);
        i = i + 1;
    }
    proof {
        assert(rotated@ =~= spec_rotate(old(pitches)@, key as int));
    }
    *pitches = rotated;
}

/// A sample inserted into a sorted run: before the first element it does
/// not exceed.
pub open spec fn spec_insert_sorted(v: i64, s: Seq<i64>) -> Seq<i64>
    decreases s.len(),
{
    if s.len() == 0 {
        seq![v]
    } else if v <= s[0] {
        seq![v] + s
    } else {
        seq![s[0]] + spec_insert_sorted(v, s.drop_first())
    }
}

/// The ascending sort of a sample list, built by inserting one element at
/// a time.
pub open spec fn spec_sorted_of(s: Seq<i64>) -> Seq<i64>
    decreases s.len(),
{
    if s.len() == 0 {
        Seq::empty()
    } else {
        spec_insert_sorted(s.last(), spec_sorted_of(s.drop_last()))
    }
}

/// Ascending order.
pub open spec fn spec_sorted(s: Seq<i64>) -> bool {
    forall|i: int, j: int| 0 <= i <= j < s.len() ==> s[i] <= s[j]
}

proof fn lemma_insert_sorted_props(v: i64, s: Seq<i64>)
    ensures
        spec_insert_sorted(v, s).len() == s.len() + 1,
        spec_sorted(s) ==> spec_sorted(spec_insert_sorted(v, s)),
        forall|k: int|
            0 <= k < spec_insert_sorted(v, s).len() ==> (#[trigger] spec_insert_sorted(v, s)[k] == v
                || s.contains(spec_insert_sorted(v, s)[k])),
    decreases s.len(),
{
    if s.len() == 0 {
    } else if v <= s[0] {
        assert forall|k: int| 0 <= k < spec_insert_sorted(v, s).len() implies (
        #[trigger] spec_insert_sorted(v, s)[k] == v || s.contains(spec_insert_sorted(v, s)[k])) by {
            if k >= 1 {
                assert(spec_insert_sorted(v, s)[k] == s[k - 1]);
            }
        }
    } else {
        lemma_insert_sorted_props(v, s.drop_first());
        let r = spec_insert_sorted(v, s);
        let inner = spec_insert_sorted(v, s.drop_first());
        assert(r[0] == s[0]);
        assert forall|k: int| 0 <= k < r.len() implies (#[trigger] r[k] == v || s.contains(
            r[k],
        )) by {
            if k >= 1 {
                assert(r[k] == inner[k - 1]);
                if inner[k - 1] != v {
                    assert(s.drop_first().contains(inner[k - 1]));
                    let w = choose|w: int|
                        0 <= w < s.drop_first().len() && s.drop_first()[w] == inner[k - 1];
                    assert(s[w + 1] == inner[k - 1]);
                }
            }
        }
        if spec_sorted(s) {
            assert forall|i: int, j: int| 0 <= i <= j < r.len() implies r[i] <= r[j] by {
                if i == 0 && j >= 1 {
                    assert(r[j] == inner[j - 1]);
                    if inner[j - 1] == v {
                        assert(s[0] < v);
                    } else {
                        assert(s.drop_first().contains(inner[j - 1]));
                        let w = choose|w: int|
                            0 <= w < s.drop_first().len() && s.drop_first()[w] == inner[j - 1];
                        assert(s[0] <= s[w + 1]);
                    }
                } else if i >= 1 {
                    assert(r[i] == inner[i - 1]);
                    assert(r[j] == inner[j - 1]);
                }
            }
        }
    }
}

/// The sort behind the statistics is a sorted permutation: it keeps the
/// length and the samples and orders them ascending.
pub proof fn lemma_sorted_of_props(s: Seq<i64>)
    ensures
        spec_sorted_of(s).len() == s.len(),
        spec_sorted(spec_sorted_of(s)),
        forall|k: int|
            0 <= k < s.len() ==> s.contains(#[trigger] spec_sorted_of(s)[k]),
    decreases s.len(),
{
    if s.len() == 0 {
    } else {
        lemma_sorted_of_props(s.drop_last());
        lemma_insert_sorted_props(s.last(), spec_sorted_of(s.drop_last()));
        let inner = spec_sorted_of(s.drop_last());
        let r = spec_sorted_of(s);
        assert forall|k: int| 0 <= k < s.len() implies s.contains(#[trigger] r[k]) by {
            if r[k] == s.last() {
                assert(s[s.len() - 1] == s.last());
            } else {
                assert(inner.contains(r[k]));
                let w = choose|w: int| 0 <= w < inner.len() && inner[w] == r[k];
                assert(s.drop_last().contains(inner[w]));
                let u = choose|u: int| 0 <= u < s.drop_last().len() && s.drop_last()[u] == r[k];
                assert(s[u] == r[k]);
            }
        }
    }
}

proof fn lemma_insert_at_position(s: Seq<i64>, v: i64, pos: int)
    requires
        0 <= pos <= s.len(),
        forall|k: int| 0 <= k < pos ==> s[k] < v,
        pos == s.len() || v <= s[pos],
    ensures
        s.insert(pos, v) == spec_insert_sorted(v, s),
    decreases pos,
{
    if s.len() == 0 {
        assert(s.insert(0, v) =~= seq![v]);
    } else if pos == 0 {
        assert(s.insert(0, v) =~= seq![v] + s);
    } else {
        assert(s[0] < v);
        lemma_insert_at_position(s.drop_first(), v, pos - 1);
        assert(s.insert(pos, v) =~= seq![s[0]] + s.drop_first().insert(pos - 1, v));
    }
}

/// Sorts a bounded sample list ascending.
pub fn sort_samples(v: Vec<i64>) -> (r: Vec<i64>)
    requires
        forall|i: int| 0 <= i < v@.len() ==> -SAMPLE_BOUND <= #[trigger] v@[i] <= SAMPLE_BOUND,
    ensures
        r@ == spec_sorted_of(v@),
        forall|k: int| 0 <= k < r@.len() ==> -SAMPLE_BOUND <= #[trigger] r@[k] <= SAMPLE_BOUND,
        spec_sorted(r@),
{
    let ghost all = v@;
    let mut r: Vec<i64> = Vec::new();
    let mut i: usize = 0;
    while i < v.len()
        invariant
            i <= all.len(),
            v@ == all,
            forall|k: int| 0 <= k < all.len() ==> -SAMPLE_BOUND <= #[trigger] all[k] <= SAMPLE_BOUND,
            r@ == spec_sorted_of(all.take(i as int)),
            spec_sorted(r@),
            forall|k: int| 0 <= k < r@.len() ==> -SAMPLE_BOUND <= #[trigger] r@[k] <= SAMPLE_BOUND,
        decreases all.len() - i,
    {
        let x = v[i];
        let mut pos: usize = 0;
        while pos < r.len() && r[pos] < x
            invariant
                pos <= r@.len(),
                forall|k: int| 0 <= k < pos ==> r@[k] < x,
            decreases r@.len() - pos,
        {
            pos = pos + 1;
        }
        let ghost r_before = r@;
        r.insert(pos, x);
        proof {
            lemma_insert_at_position(r_before, x, pos as int);
            lemma_insert_sorted_props(x, r_before);
            assert(all.take(i + 1).drop_last() =~= all.take(i as int));
            assert(all.take(i + 1).last() == all[i as int]);
            assert forall|k: int| 0 <= k < r@.len() implies -SAMPLE_BOUND <= #[trigger] r@[k]
                <= SAMPLE_BOUND by {
                if r@[k] != x {
                    assert(r_before.contains(r@[k]));
                }
            }
        }
        i = i + 1;
    }
    proof {
        assert(all.take(all.len() as int) =~= all);
    }
    r
}

/// The sum of a sample list.
pub open spec fn spec_sum(s: Seq<i64>) -> int
    decreases s.len(),
{
    if s.len() == 0 {
        0
    } else {
        spec_sum(s.drop_last()) + s.last()
    }
}

/// The sum of squared deviations of a sample list from `m`.
pub open spec fn spec_sqdev_sum(s: Seq<i64>, m: int) -> int
    decreases s.len(),
{
    if s.len() == 0 {
        0
    } else {
        spec_sqdev_sum(s.drop_last(), m) + (s.last() - m) * (s.last() - m)
    }
}

/// Integer division truncated toward zero, as the statistics round.
pub open spec fn spec_div_trunc(a: int, b: int) -> int
    recommends
        b > 0,
{
    if a >= 0 {
        a / b
    } else {
        -((-a) / b)
    }
}

/// The median of a sample list: the element of its sort at half the
/// length, or 0 when it is empty.
pub open spec fn spec_median(c: Seq<i64>) -> int {
    if c.len() == 0 {
        0
    } else {
        spec_sorted_of(c)[c.len() as int / 2] as int
    }
}

/// The mean of a sample list (truncated toward zero), or 0 when empty.
pub open spec fn spec_mean(c: Seq<i64>) -> int {
    if c.len() == 0 {
        0
    } else {
        spec_div_trunc(spec_sum(spec_sorted_of(c)), c.len() as int)
    }
}

/// The population variance of a sample list (truncated toward zero), or 0
/// when empty; the output column keeps the historical name stdev.
pub open spec fn spec_stdev(c: Seq<i64>) -> int {
    if c.len() == 0 {
        0
    } else {
        spec_div_trunc(
            spec_sqdev_sum(spec_sorted_of(c), spec_mean(c)),
            c.len() as int,
        )
    }
}

/// The spread of a sample list: its largest sample minus its smallest,
/// or 0 when empty.
pub open spec fn spec_range(c: Seq<i64>) -> int {
    if c.len() == 0 {
        0
    } else {
        spec_sorted_of(c).last() - spec_sorted_of(c)[0]
    }
}

/// The element at half the length of an ascending sample list, or 0.
pub fn median_sorted_vec(v: &Vec<i64>) -> (r: i64)
    ensures
        r as int == if v@.len() == 0 {
            0int
        } else {
            v@[v@.len() as int / 2] as int
        },
{
    if v.len() == 0 {
        0
    } else {
        v[v.len() / 2]
    }
}

/// The truncated mean of a bounded sample list, or 0 when empty.
pub fn mean_sorted_vec(v: &Vec<i64>) -> (r: i64)
    requires
        forall|i: int| 0 <= i < v@.len() ==> -SAMPLE_BOUND <= #[trigger] v@[i] <= SAMPLE_BOUND,
    ensures
        r as int == if v@.len() == 0 {
            0int
        } else {
            spec_div_trunc(spec_sum(v@), v@.len() as int)
        },
        -SAMPLE_BOUND <= r <= SAMPLE_BOUND,
{
    if v.len() == 0 {
        return 0;
    }
    let ghost all = v@;
    let mut acc: i128 = 0;
    let mut i: usize = 0;
    while i < v.len()
        invariant
            i <= all.len(),
            v@ == all,
            forall|k: int| 0 <= k < all.len() ==> -SAMPLE_BOUND <= #[trigger] all[k] <= SAMPLE_BOUND,
            acc as int == spec_sum(all.take(i as int)),
            -0x4000_0000 * (i as int) <= acc as int <= 0x4000_0000 * (i as int),
        decreases all.len() - i,
    {
        proof {
            assert(all.take(i + 1).drop_last() =~= all.take(i as int));
            assert(all.take(i + 1).last() == all[i as int]);
            assert(SAMPLE_BOUND == 0x4000_0000);
        }
        acc = acc + (v[i] as i128);
        i = i + 1;
    }
    proof {
        assert(all.take(all.len() as int) =~= all);
    }
    let n = v.len() as i128;
    let q: i128 = if acc >= 0 {
        proof {
            vstd::arithmetic::div_mod::lemma_div_is_ordered(
                acc as int,
                0x4000_0000 * (all.len() as int),
                all.len() as int,
            );
            vstd::arithmetic::div_mod::lemma_div_multiples_vanish(0x4000_0000, all.len() as int);
            vstd::arithmetic::div_mod::lemma_div_pos_is_pos(acc as int, all.len() as int);
        }
        acc / n
    } else {
        proof {
            vstd::arithmetic::div_mod::lemma_div_is_ordered(
                -(acc as int),
                0x4000_0000 * (all.len() as int),
                all.len() as int,
            );
            vstd::arithmetic::div_mod::lemma_div_multiples_vanish(0x4000_0000, all.len() as int);
            vstd::arithmetic::div_mod::lemma_div_pos_is_pos(-(acc as int), all.len() as int);
        }
        -((-acc) / n)
    };
    q as i64
}

/// The truncated population variance of a bounded sample list, or 0 when
/// empty; kept under the historical name stdev.
pub fn stdev_sorted_vec(v: &Vec<i64>) -> (r: i64)
    requires
        forall|i: int| 0 <= i < v@.len() ==> -SAMPLE_BOUND <= #[trigger] v@[i] <= SAMPLE_BOUND,
    ensures
        r as int == if v@.len() == 0 {
            0int
        } else {
            spec_div_trunc(
                spec_sqdev_sum(v@, spec_div_trunc(spec_sum(v@), v@.len() as int)),
                v@.len() as int,
            )
        },
{
    if v.len() == 0 {
        return 0;
    }
    let ghost all = v@;
    let mean = mean_sorted_vec(v);
    let ghost m = mean as int;
    let mut acc: i128 = 0;
    let mut i: usize = 0;
    while i < v.len()
        invariant
            i <= all.len(),
            v@ == all,
            forall|k: int| 0 <= k < all.len() ==> -SAMPLE_BOUND <= #[trigger] all[k] <= SAMPLE_BOUND,
            -SAMPLE_BOUND <= mean <= SAMPLE_BOUND,
            m == mean as int,
            acc as int == spec_sqdev_sum(all.take(i as int), m),
            0 <= acc as int <= 0x4000_0000_0000_0000 * (i as int),
        decreases all.len() - i,
    {
        proof {
            assert(all.take(i + 1).drop_last() =~= all.take(i as int));
            assert(all.take(i + 1).last() == all[i as int]);
            assert(SAMPLE_BOUND == 0x4000_0000);
        }
        let d: i64 = v[i] - mean;
        proof {
            assert(0 <= (d as int) * (d as int) <= 0x4000_0000_0000_0000) by (nonlinear_arith)
                requires
                    -0x8000_0000 <= d as int <= 0x8000_0000,
            ;
        }
        let dd: i128 = (d as i128) * (d as i128);
        acc = acc + dd;
        i = i + 1;
    }
    proof {
        assert(all.take(all.len() as int) =~= all);
        vstd::arithmetic::div_mod::lemma_div_is_ordered(
            acc as int,
            0x4000_0000_0000_0000 * (all.len() as int),
            all.len() as int,
        );
        vstd::arithmetic::div_mod::lemma_div_multiples_vanish(
            0x4000_0000_0000_0000,
            all.len() as int,
        );
        vstd::arithmetic::div_mod::lemma_div_pos_is_pos(acc as int, all.len() as int);
    }
    let n = v.len() as i128;
    (acc / n) as i64
}

/// The spread of an ascending bounded sample list: last minus first, or 0
/// when empty.
pub fn range_sorted_vec(v: &Vec<i64>) -> (r: i64)
    requires
        forall|i: int| 0 <= i < v@.len() ==> -SAMPLE_BOUND <= #[trigger] v@[i] <= SAMPLE_BOUND,
    ensures
        r as int == if v@.len() == 0 {
            0int
        } else {
            v@[v@.len() - 1] - v@[0]
        },
{
    if v.len() == 0 {
        0
    } else {
        v[v.len() - 1] - v[0]
    }
}

/// Column `d` of a list of sample rows; a missing position reads as 0.
pub open spec fn spec_column_of(rows: Seq<Vec<i64>>, d: int) -> Seq<i64> {
    Seq::new(
        rows.len(),
        |i: int|
            if d < rows[i]@.len() {
                rows[i]@[d]
            } else {
                0
            },
    )
}

/// Twelve per-dimension sample columns, each sorted ascending, collected
/// from rows of (up to) twelve samples.
pub struct DozenCollector {
    pub values0: Vec<i64>,
    pub values1: Vec<i64>,
    pub values2: Vec<i64>,
    pub values3: Vec<i64>,
    pub values4: Vec<i64>,
    pub values5: Vec<i64>,
    pub values6: Vec<i64>,
    pub values7: Vec<i64>,
    pub values8: Vec<i64>,
    pub values9: Vec<i64>,
    pub values10: Vec<i64>,
    pub values11: Vec<i64>,
}

impl DozenCollector {
    /// The collected column for dimension `d`.
    pub open spec fn spec_column(&self, d: int) -> Seq<i64> {
        if d == 0 {
            self.values0@
        } else if d == 1 {
            self.values1@
        } else if d == 2 {
            self.values2@
        } else if d == 3 {
            self.values3@
        } else if d == 4 {
            self.values4@
        } else if d == 5 {
            self.values5@
        } else if d == 6 {
            self.values6@
        } else if d == 7 {
            self.values7@
        } else if d == 8 {
            self.values8@
        } else if d == 9 {
            self.values9@
        } else if d == 10 {
            self.values10@
        } else {
            self.values11@
        }
    }

    /// The collected column for dimension `d`.
    pub fn column(&self, d: usize) -> (r: &Vec<i64>)
        requires
            d < 12,
        ensures
            r@ == self.spec_column(d as int),
    {
        if d == 0 {
            &self.values0
        } else if d == 1 {
            &self.values1
        } else if d == 2 {
            &self.values2
        } else if d == 3 {
            &self.values3
        } else if d == 4 {
            &self.values4
        } else if d == 5 {
            &self.values5
        } else if d == 6 {
            &self.values6
        } else if d == 7 {
            &self.values7
        } else if d == 8 {
            &self.values8
        } else if d == 9 {
            &self.values9
        } else if d == 10 {
            &self.values10
        } else {
            &self.values11
        }
    }

    /// Transposes sample rows into their twelve columns and sorts each
    /// column ascending.
    pub fn from(rows: Vec<Vec<i64>>) -> (r: DozenCollector)
        requires
            forall|i: int, j: int|
                0 <= i < rows@.len() && 0 <= j < rows@[i]@.len() ==> -SAMPLE_BOUND <= #[trigger] rows@[i]@[j]
                    <= SAMPLE_BOUND,
        ensures
            forall|d: int|
                0 <= d < 12 ==> #[trigger] r.spec_column(d) == spec_sorted_of(
                    spec_column_of(rows@, d),
                ),
            forall|d: int, k: int|
                0 <= d < 12 && 0 <= k < r.spec_column(d).len() ==> -SAMPLE_BOUND
                    <= #[trigger] r.spec_column(d)[k] <= SAMPLE_BOUND,
    {
        let mut cols: Vec<Vec<i64>> = Vec::new();
        let mut d: usize = 0;
        while d < 12
            invariant
                d <= 12,
                cols@.len() == d,
                forall|i: int, j: int|
                    0 <= i < rows@.len() && 0 <= j < rows@[i]@.len() ==> -SAMPLE_BOUND
                        <= #[trigger] rows@[i]@[j] <= SAMPLE_BOUND,
                forall|e: int|
                    0 <= e < d ==> #[trigger] cols@[e]@ == spec_sorted_of(spec_column_of(rows@, e)),
                forall|e: int, k: int|
                    0 <= e < d && 0 <= k < cols@[e]@.len() ==> -SAMPLE_BOUND
                        <= #[trigger] cols@[e]@[k] <= SAMPLE_BOUND,
            decreases 12 - d,
        {
            let mut col: Vec<i64> = Vec::new();
            let mut i: usize = 0;
            while i < rows.len()
                invariant
                    i <= rows@.len(),
                    d < 12,
                    col@.len() == i,
                    forall|i2: int, j: int|
                        0 <= i2 < rows@.len() && 0 <= j < rows@[i2]@.len() ==> -SAMPLE_BOUND
                            <= #[trigger] rows@[i2]@[j] <= SAMPLE_BOUND,
                    forall|k: int| 0 <= k < i ==> col@[k] == spec_column_of(rows@, d as int)[k],
                    forall|k: int|
                        0 <= k < i ==> -SAMPLE_BOUND <= #[trigger] col@[k] <= SAMPLE_BOUND,
                decreases rows@.len() - i,
            {
                let row = &rows[i];
                let x: i64 = if d < row.len() {
                    row[d]
                } else {
                    0
                };
                col.push(x);
                i = i + 1;
            }
            proof {
                assert(col@ =~= spec_column_of(rows@, d as int));
            }
            let sorted = sort_samples(col);
            cols.push(sorted);
            d = d + 1;
        }
        let mut cols = cols;
        let values0 = cols.remove(0);
        let values1 = cols.remove(0);
        let values2 = cols.remove(0);
        let values3 = cols.remove(0);
        let values4 = cols.remove(0);
        let values5 = cols.remove(0);
        let values6 = cols.remove(0);
        let values7 = cols.remove(0);
        let values8 = cols.remove(0);
        let values9 = cols.remove(0);
        let values10 = cols.remove(0);
        let values11 = cols.remove(0);
        DozenCollector {
            values0,
            values1,
            values2,
            values3,
            values4,
            values5,
            values6,
            values7,
            values8,
            values9,
            values10,
            values11,
        }
    }
}

/// The key-adjusted pitch column `d` over a whole analysis: for each
/// segment, its pitch vector rotated left by its containing section's
/// key, read at `d`.
pub open spec fn spec_adj_pitch_column(a: AudioAnalysis, d: int) -> Seq<i64> {
    Seq::new(
        a.segments@.len(),
        |i: int|
            spec_rotate(
                a.segments@[i].pitches@,
                spec_segment_key(
                    a.sections@,
                    a.segments@[i].start as int,
                    a.segments@[i].duration as int,
                ),
            )[d],
    )
}

/// The (unrotated) timbre column `d` over a whole analysis.
pub open spec fn spec_timbre_column(a: AudioAnalysis, d: int) -> Seq<i64> {
    Seq::new(a.segments@.len(), |i: int| a.segments@[i].timbre@[d])
}

/// Feature key rotation: for a segment lying wholly inside the single
/// section, the chosen key is that section's key, and the first adjusted
/// pitch is the segment's pitch at that key.
pub proof fn lemma_key_rotation(sections: Seq<Section>, seg: Segment)
    requires
        sections.len() == 1,
        sections[0].wf(),
        seg.wf(),
        seg.duration > 0,
        sections[0].start <= seg.start,
        seg.start + seg.duration <= sections[0].start + sections[0].duration,
    ensures
        spec_segment_key(sections, seg.start as int, seg.duration as int) == sections[0].key as int,
        spec_rotate(
            seg.pitches@,
            spec_segment_key(sections, seg.start as int, seg.duration as int),
        )[0] == seg.pitches@[sections[0].key as int],
{
    assert(sections.drop_first() =~= Seq::<Section>::empty());
    let k = sections[0].key as int;
    assert((0 + k) % 12 == k);
}

/// The fixed per-track feature row: the scalar features, the section and
/// segment counts, and four statistics over each of the twelve
/// key-adjusted pitch and twelve timbre dimensions.
#[derive(Debug, PartialEq, Eq)]
pub struct FeaturesCsv {
    pub track_id: String,
    pub duration_ms: i32,
    pub key: i32,
    pub mode: i32,
    pub time_signature: i32,
    pub acousticness: i64,
    pub danceability: i64,
    pub energy: i64,
    pub instrumentalness: i64,
    pub liveness: i64,
    pub loudness: i64,
    pub speechiness: i64,
    pub valence: i64,
    pub tempo: i64,
    pub num_sections: usize,
    pub num_segments: usize,
    pub median_adj_pitch: Vec<i64>,
    pub median_timbre: Vec<i64>,
    pub mean_adj_pitch: Vec<i64>,
    pub mean_timbre: Vec<i64>,
    pub stdev_adj_pitch: Vec<i64>,
    pub stdev_timbre: Vec<i64>,
    pub range_adj_pitch: Vec<i64>,
    pub range_timbre: Vec<i64>,
}

/// Whether `r` is the feature row reduced from `analysis` and `features`:
/// every field of the row is pinned as a function of the two inputs.
pub open spec fn spec_reduced(
    analysis: AudioAnalysis,
    features: AudioFeatures,
    r: FeaturesCsv,
) -> bool {
    &&& r.track_id == features.id
    &&& r.duration_ms == features.duration_ms
    &&& r.key == features.key
    &&& r.mode == features.mode
    &&& r.time_signature == features.time_signature
    &&& r.acousticness == features.acousticness
    &&& r.danceability == features.danceability
    &&& r.energy == features.energy
    &&& r.instrumentalness == features.instrumentalness
    &&& r.liveness == features.liveness
    &&& r.loudness == features.loudness
    &&& r.speechiness == features.speechiness
    &&& r.valence == features.valence
    &&& r.tempo == features.tempo
    &&& r.num_sections == analysis.sections@.len()
    &&& r.num_segments == analysis.segments@.len()
    &&& r.median_adj_pitch@.len() == 12 && r.mean_adj_pitch@.len() == 12
        && r.stdev_adj_pitch@.len() == 12 && r.range_adj_pitch@.len() == 12
    &&& r.median_timbre@.len() == 12 && r.mean_timbre@.len() == 12 && r.stdev_timbre@.len() == 12
        && r.range_timbre@.len() == 12
    &&& forall|d: int|
        0 <= d < 12 ==> {
            &&& (#[trigger] r.median_adj_pitch@[d]) as int == spec_median(
                spec_adj_pitch_column(analysis, d),
            )
            &&& r.mean_adj_pitch@[d] as int == spec_mean(spec_adj_pitch_column(analysis, d))
            &&& r.stdev_adj_pitch@[d] as int == spec_stdev(spec_adj_pitch_column(analysis, d))
            &&& r.range_adj_pitch@[d] as int == spec_range(spec_adj_pitch_column(analysis, d))
            &&& r.median_timbre@[d] as int == spec_median(spec_timbre_column(analysis, d))
            &&& r.mean_timbre@[d] as int == spec_mean(spec_timbre_column(analysis, d))
            &&& r.stdev_timbre@[d] as int == spec_stdev(spec_timbre_column(analysis, d))
            &&& r.range_timbre@[d] as int == spec_range(spec_timbre_column(analysis, d))
        }
}

/// Feature reducer determinism: any two rows reduced from the same
/// analysis and features agree on every field, so the reduced row is
/// identical across runs.
pub proof fn lemma_reducer_deterministic(
    analysis: AudioAnalysis,
    features: AudioFeatures,
    r1: FeaturesCsv,
    r2: FeaturesCsv,
)
    requires
        spec_reduced(analysis, features, r1),
        spec_reduced(analysis, features, r2),
    ensures
        r1.track_id == r2.track_id,
        r1.duration_ms == r2.duration_ms && r1.key == r2.key && r1.mode == r2.mode
            && r1.time_signature == r2.time_signature,
        r1.acousticness == r2.acousticness && r1.danceability == r2.danceability && r1.energy
            == r2.energy && r1.instrumentalness == r2.instrumentalness,
        r1.liveness == r2.liveness && r1.loudness == r2.loudness && r1.speechiness
            == r2.speechiness && r1.valence == r2.valence && r1.tempo == r2.tempo,
        r1.num_sections == r2.num_sections && r1.num_segments == r2.num_segments,
        r1.median_adj_pitch@ == r2.median_adj_pitch@,
        r1.mean_adj_pitch@ == r2.mean_adj_pitch@,
        r1.stdev_adj_pitch@ == r2.stdev_adj_pitch@,
        r1.range_adj_pitch@ == r2.range_adj_pitch@,
        r1.median_timbre@ == r2.median_timbre@,
        r1.mean_timbre@ == r2.mean_timbre@,
        r1.stdev_timbre@ == r2.stdev_timbre@,
        r1.range_timbre@ == r2.range_timbre@,
{
    assert forall|d: int| 0 <= d < 12 implies {
        &&& r1.median_adj_pitch@[d] == r2.median_adj_pitch@[d]
        &&& r1.mean_adj_pitch@[d] == r2.mean_adj_pitch@[d]
        &&& r1.stdev_adj_pitch@[d] == r2.stdev_adj_pitch@[d]
        &&& r1.range_adj_pitch@[d] == r2.range_adj_pitch@[d]
        &&& r1.median_timbre@[d] == r2.median_timbre@[d]
        &&& r1.mean_timbre@[d] == r2.mean_timbre@[d]
        &&& r1.stdev_timbre@[d] == r2.stdev_timbre@[d]
        &&& r1.range_timbre@[d] == r2.range_timbre@[d]
    } by {
        assert(r1.median_adj_pitch@[d] as int == spec_median(spec_adj_pitch_column(analysis, d)));
        assert(r2.median_adj_pitch@[d] as int == spec_median(spec_adj_pitch_column(analysis, d)));
    }
    assert(r1.median_adj_pitch@ =~= r2.median_adj_pitch@);
    assert(r1.mean_adj_pitch@ =~= r2.mean_adj_pitch@);
    assert(r1.stdev_adj_pitch@ =~= r2.stdev_adj_pitch@);
    assert(r1.range_adj_pitch@ =~= r2.range_adj_pitch@);
    assert(r1.median_timbre@ =~= r2.median_timbre@);
    assert(r1.mean_timbre@ =~= r2.mean_timbre@);
    assert(r1.stdev_timbre@ =~= r2.stdev_timbre@);
    assert(r1.range_timbre@ =~= r2.range_timbre@);
}

impl FeaturesCsv {
    /// Reduces an audio analysis and the per-track scalars to the fixed
    /// feature row. Every field is a function of the inputs alone, so
    /// the row is identical across runs on equal inputs.
    pub fn extract_from(analysis: AudioAnalysis, features: AudioFeatures) -> (r: FeaturesCsv)
        requires
            analysis.wf(),
        ensures
            spec_reduced(analysis, features, r),
    {
        let num_sections = analysis.sections.len();
        let num_segments = analysis.segments.len();
        let sections = analysis.sections;
        let mut segments = analysis.segments;
        let ghost secs0 = sections@;
        let ghost segs0 = segments@;
        let mut adj_rows: Vec<Vec<i64>> = Vec::new();
        let mut timbre_rows: Vec<Vec<i64>> = Vec::new();
        while segments.len() > 0
            invariant
                sections@ == secs0,
                adj_rows@.len() + segments@.len() == segs0.len(),
                timbre_rows@.len() == adj_rows@.len(),
                segments@ == segs0.skip(adj_rows@.len() as int),
                forall|i: int| 0 <= i < secs0.len() ==> (#[trigger] secs0[i]).wf(),
                forall|i: int| 0 <= i < segs0.len() ==> (#[trigger] segs0[i]).wf(),
                forall|j: int|
                    0 <= j < adj_rows@.len() ==> #[trigger] adj_rows@[j]@ == spec_rotate(
                        segs0[j].pitches@,
                        spec_segment_key(secs0, segs0[j].start as int, segs0[j].duration as int),
                    ),
                forall|j: int|
                    0 <= j < timbre_rows@.len() ==> #[trigger] timbre_rows@[j]@ == segs0[j].timbre@,
            decreases segments@.len(),
        {
            let ghost before = segments@;
            let ghost k = adj_rows@.len() as int;
            let seg = segments.remove(0);
            proof {
                assert(segments@ =~= before.drop_first());
                assert(before[0] == seg);
                assert(segs0.skip(k)[0] == segs0[k]);
                assert(segs0.skip(k).drop_first() =~= segs0.skip(k + 1));
            }
            let key = seg.get_key(&sections);
            let mut p = seg.pitches;
            adjust_pitches(&mut p, key);
            adj_rows.push(p);
            timbre_rows.push(seg.timbre);
        }
        let ghost adj_snap = adj_rows@;
        let ghost timbre_snap = timbre_rows@;
        proof {
            assert forall|d: int| 0 <= d < 12 implies spec_column_of(adj_snap, d)
                =~= spec_adj_pitch_column(analysis, d) by {
                assert forall|i: int| 0 <= i < adj_snap.len() implies spec_column_of(adj_snap, d)[i]
                    == spec_adj_pitch_column(analysis, d)[i] by {
                    assert(adj_snap[i]@.len() == 12);
                }
            }
            assert forall|d: int| 0 <= d < 12 implies spec_column_of(timbre_snap, d)
                =~= spec_timbre_column(analysis, d) by {
                assert forall|i: int| 0 <= i < timbre_snap.len() implies spec_column_of(
                    timbre_snap,
                    d,
                )[i] == spec_timbre_column(analysis, d)[i] by {
                    assert(timbre_snap[i]@.len() == 12);
                    assert(segs0[i].wf());
                }
            }
            assert forall|i: int, j: int|
                0 <= i < adj_snap.len() && 0 <= j < adj_snap[i]@.len() implies -SAMPLE_BOUND
                <= #[trigger] adj_snap[i]@[j] <= SAMPLE_BOUND by {
                assert(segs0[i].wf());
                let key = spec_segment_key(secs0, segs0[i].start as int, segs0[i].duration as int);
                assert(adj_snap[i]@[j] == segs0[i].pitches@[(j + key) % 12]);
            }
            assert forall|i: int, j: int|
                0 <= i < timbre_snap.len() && 0 <= j < timbre_snap[i]@.len() implies -SAMPLE_BOUND
                <= #[trigger] timbre_snap[i]@[j] <= SAMPLE_BOUND by {
                assert(segs0[i].wf());
            }
        }
        let adj = DozenCollector::from(adj_rows);
        let timbre = DozenCollector::from(timbre_rows);
        let mut median_adj: Vec<i64> = Vec::new();
        let mut mean_adj: Vec<i64> = Vec::new();
        let mut stdev_adj: Vec<i64> = Vec::new();
        let mut range_adj: Vec<i64> = Vec::new();
        let mut median_tim: Vec<i64> = Vec::new();
        let mut mean_tim: Vec<i64> = Vec::new();
        let mut stdev_tim: Vec<i64> = Vec::new();
        let mut range_tim: Vec<i64> = Vec::new();
        let mut d: usize = 0;
        while d < 12
            invariant
                d <= 12,
                median_adj@.len() == d && mean_adj@.len() == d && stdev_adj@.len() == d
                    && range_adj@.len() == d,
                median_tim@.len() == d && mean_tim@.len() == d && stdev_tim@.len() == d
                    && range_tim@.len() == d,
                forall|e: int|
                    0 <= e < 12 ==> #[trigger] adj.spec_column(e) == spec_sorted_of(
                        spec_adj_pitch_column(analysis, e),
                    ),
                forall|e: int|
                    0 <= e < 12 ==> #[trigger] timbre.spec_column(e) == spec_sorted_of(
                        spec_timbre_column(analysis, e),
                    ),
                forall|e: int, k: int|
                    0 <= e < 12 && 0 <= k < adj.spec_column(e).len() ==> -SAMPLE_BOUND
                        <= #[trigger] adj.spec_column(e)[k] <= SAMPLE_BOUND,
                forall|e: int, k: int|
                    0 <= e < 12 && 0 <= k < timbre.spec_column(e).len() ==> -SAMPLE_BOUND
                        <= #[trigger] timbre.spec_column(e)[k] <= SAMPLE_BOUND,
                forall|e: int|
                    0 <= e < d ==> {
                        &&& (#[trigger] median_adj@[e]) as int == spec_median(
                            spec_adj_pitch_column(analysis, e),
                        )
                        &&& mean_adj@[e] as int == spec_mean(spec_adj_pitch_column(analysis, e))
                        &&& stdev_adj@[e] as int == spec_stdev(spec_adj_pitch_column(analysis, e))
                        &&& range_adj@[e] as int == spec_range(spec_adj_pitch_column(analysis, e))
                        &&& median_tim@[e] as int == spec_median(spec_timbre_column(analysis, e))
                        &&& mean_tim@[e] as int == spec_mean(spec_timbre_column(analysis, e))
                        &&& stdev_tim@[e] as int == spec_stdev(spec_timbre_column(analysis, e))
                        &&& range_tim@[e] as int == spec_range(spec_timbre_column(analysis, e))
                    },
            decreases 12 - d,
        {
            proof {
                lemma_sorted_of_props(spec_adj_pitch_column(analysis, d as int));
                lemma_sorted_of_props(spec_timbre_column(analysis, d as int));
            }
            let col_a = adj.column(d);
            median_adj.push(median_sorted_vec(col_a));
            mean_adj.push(mean_sorted_vec(col_a));
            stdev_adj.push(stdev_sorted_vec(col_a));
            range_adj.push(range_sorted_vec(col_a));
            let col_t = timbre.column(d);
            median_tim.push(median_sorted_vec(col_t));
            mean_tim.push(mean_sorted_vec(col_t));
            stdev_tim.push(stdev_sorted_vec(col_t));
            range_tim.push(range_sorted_vec(col_t));
            d = d + 1;
        }
        FeaturesCsv {
            track_id: features.id,
            duration_ms: features.duration_ms,
            key: features.key,
            mode: features.mode,
            time_signature: features.time_signature,
            acousticness: features.acousticness,
            danceability: features.danceability,
            energy: features.energy,
            instrumentalness: features.instrumentalness,
            liveness: features.liveness,
            loudness: features.loudness,
            speechiness: features.speechiness,
            valence: features.valence,
            tempo: features.tempo,
            num_sections,
            num_segments,
            median_adj_pitch: median_adj,
            median_timbre: median_tim,
            mean_adj_pitch: mean_adj,
            mean_timbre: mean_tim,
            stdev_adj_pitch: stdev_adj,
            stdev_timbre: stdev_tim,
            range_adj_pitch: range_adj,
            range_timbre: range_tim,
        }
    }
}

} // verus!
