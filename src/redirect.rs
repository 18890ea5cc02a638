use vstd::prelude::*;

verus! {

/// The byte sequences laid end to end.
pub open spec fn concat_all(parts: Seq<Seq<u8>>) -> Seq<u8>
    decreases parts.len(),
{
    if parts.len() == 0 {
        Seq::empty()
    } else {
        concat_all(parts.drop_last()) + parts.last()
    }
}

/// The next thing that a merge helper does.
#[derive(Clone, Copy, Debug, PartialEq, Eq, Structural)]
pub enum MergeStep {
    /// Read the next block of the source with this index.
    ReadFrom(usize),
    /// Every source has ended: the helper exits.
    Done,
}

pub struct MergeView {
    pub n_sources: nat,
    pub current: nat,
    /// What each ended source gave, in order.
    pub finished: Seq<Seq<u8>>,
    /// What the current source has given so far.
    pub partial: Seq<u8>,
    /// What was handed to the sink.
    pub delivered: Seq<u8>,
    /// A read or a write failed: the helper stops.
    pub aborted: bool,
}

pub open spec fn merge_start(n_sources: nat) -> MergeView {
    MergeView {
        n_sources,
        current: 0,
        finished: Seq::empty(),
        partial: Seq::empty(),
        delivered: Seq::empty(),
        aborted: false,
    }
}

/// The current source gave `block`; an empty block is its end, after which
/// the next source is read.
pub open spec fn merge_read(v: MergeView, block: Seq<u8>) -> MergeView {
    if block.len() > 0 {
        MergeView { partial: v.partial + block, delivered: v.delivered + block, ..v }
    } else {
        MergeView {
            current: v.current + 1,
            finished: v.finished.push(v.partial),
            partial: Seq::empty(),
            ..v
        }
    }
}

/// One source read to its end: each of its blocks, then the end.
pub open spec fn merge_source(v: MergeView, blocks: Seq<Seq<u8>>) -> MergeView
    decreases blocks.len(),
{
    if blocks.len() == 0 {
        merge_read(v, Seq::empty())
    } else {
        merge_source(merge_read(v, blocks[0]), blocks.drop_first())
    }
}

/// Every source read to its end, one after another.
pub open spec fn merge_run(v: MergeView, sources: Seq<Seq<Seq<u8>>>) -> MergeView
    decreases sources.len(),
{
    if sources.len() == 0 {
        v
    } else {
        merge_run(merge_source(v, sources[0]), sources.drop_first())
    }
}

/// Blocks as a read gives them: never empty, since an empty read is the end.
pub open spec fn all_nonempty(blocks: Seq<Seq<u8>>) -> bool {
    forall|i: int| 0 <= i < blocks.len() ==> (#[trigger] blocks[i]).len() > 0
}

/// The decisions of a merge helper, which copies each source to the end, in
/// order, into one sink.
pub struct Merger {
    n_sources: usize,
    current: usize,
    aborted: bool,
    finished: Ghost<Seq<Seq<u8>>>,
    partial: Ghost<Seq<u8>>,
    delivered: Ghost<Seq<u8>>,
}

impl View for Merger {
    type V = MergeView;

    closed spec fn view(&self) -> MergeView {
        MergeView {
            n_sources: self.n_sources as nat,
            current: self.current as nat,
            finished: self.finished@,
            partial: self.partial@,
            delivered: self.delivered@,
            aborted: self.aborted,
        }
    }
}

impl Merger {
    pub open spec fn wf(&self) -> bool {
        &&& self@.current <= self@.n_sources
        &&& self@.finished.len() == self@.current
        &&& self@.delivered == concat_all(self@.finished) + self@.partial
        &&& self@.current == self@.n_sources ==> self@.partial.len() == 0
    }

    /// A merge of `n_sources` sources, none read yet.
    pub fn new(n_sources: usize) -> (r: Merger)
        ensures
            r.wf(),
            r@ == merge_start(n_sources as nat),
    {
        let r = Merger {
            n_sources,
            current: 0,
            aborted: false,
            finished: Ghost(Seq::empty()),
            partial: Ghost(Seq::empty()),
            delivered: Ghost(Seq::empty()),
        };
        assert(r@.delivered =~= concat_all(r@.finished) + r@.partial);
        r
    }

    /// Sources are read one after another, each to its end, unless a
    /// failure stopped the helper.
    pub fn next_step(&self) -> (r: MergeStep)
        ensures
            !self@.aborted && self@.current < self@.n_sources ==> r == MergeStep::ReadFrom(
                self@.current as usize,
            ),
            self@.aborted || self@.current >= self@.n_sources ==> r == MergeStep::Done,
    {
        if !self.aborted && self.current < self.n_sources {
            MergeStep::ReadFrom(self.current)
        } else {
            MergeStep::Done
        }
    }

    /// The current source gave `block`; an empty block is its end. Returns
    /// whether `block` is to be written to the sink.
    pub fn on_read(&mut self, block: &[u8]) -> (write: bool)
        requires
            old(self).wf(),
            !old(self)@.aborted,
            old(self)@.current < old(self)@.n_sources,
        ensures
            final(self).wf(),
            write == (block@.len() > 0),
            final(self)@ == merge_read(old(self)@, block@),
    {
        if block.len() > 0 {
            proof {
                let f = self.finished@;
                let p = self.partial@;
                assert(concat_all(f) + (p + block@) =~= concat_all(f) + p + block@);
                self.partial@ = p + block@;
                self.delivered@ = self.delivered@ + block@;
            }
            true
        } else {
            proof {
                let f = self.finished@;
                let p = self.partial@;
                assert(f.push(p).drop_last() =~= f);
                assert(concat_all(f.push(p)) + Seq::<u8>::empty() =~= concat_all(f) + p);
                self.finished@ = f.push(p);
                self.partial@ = Seq::empty();
            }
            self.current = self.current + 1;
            false
        }
    }

    /// A read from the current source or a write to the sink failed: the
    /// helper stops, and nothing more is read or written.
    pub fn on_failure(&mut self)
        requires
            old(self).wf(),
        ensures
            final(self).wf(),
            final(self)@ == (MergeView { aborted: true, ..old(self)@ }),
    {
        self.aborted = true;
    }
}

proof fn lemma_concat_all_first(parts: Seq<Seq<u8>>)
    requires
        parts.len() > 0,
    ensures
        concat_all(parts) == parts[0] + concat_all(parts.drop_first()),
    decreases parts.len(),
{
    if parts.len() == 1 {
        assert(parts.drop_last() =~= Seq::<Seq<u8>>::empty());
        assert(parts.drop_first() =~= Seq::<Seq<u8>>::empty());
        assert(concat_all(parts) =~= parts[0] + concat_all(parts.drop_first()));
    } else {
        lemma_concat_all_first(parts.drop_last());
        assert(parts.drop_last().drop_first() =~= parts.drop_first().drop_last());
        assert(parts.drop_first().last() == parts.last());
        assert(parts.drop_last()[0] == parts[0]);
        assert(concat_all(parts) =~= parts[0] + concat_all(parts.drop_first()));
    }
}

proof fn lemma_merge_source(v: MergeView, blocks: Seq<Seq<u8>>)
    requires
        all_nonempty(blocks),
    ensures
        merge_source(v, blocks) == (MergeView {
            current: v.current + 1,
            finished: v.finished.push(v.partial + concat_all(blocks)),
            partial: Seq::empty(),
            delivered: v.delivered + concat_all(blocks),
            ..v
        }),
    decreases blocks.len(),
{
    if blocks.len() == 0 {
        assert(v.partial + concat_all(blocks) =~= v.partial);
        assert(v.delivered + concat_all(blocks) =~= v.delivered);
    } else {
        let w = merge_read(v, blocks[0]);
        assert(blocks[0].len() > 0);
        let rest = blocks.drop_first();
        assert(all_nonempty(rest)) by {
            assert forall|i: int| 0 <= i < rest.len() implies (#[trigger] rest[i]).len() > 0 by {
                assert(rest[i] == blocks[i + 1]);
            }
        }
        lemma_merge_source(w, rest);
        lemma_concat_all_first(blocks);
        assert(w.partial + concat_all(rest) =~= v.partial + concat_all(blocks));
        assert(w.delivered + concat_all(rest) =~= v.delivered + concat_all(blocks));
    }
}

proof fn lemma_merge_run(v: MergeView, sources: Seq<Seq<Seq<u8>>>)
    requires
        v.partial.len() == 0,
        forall|i: int| 0 <= i < sources.len() ==> all_nonempty(#[trigger] sources[i]),
    ensures
        merge_run(v, sources).current == v.current + sources.len(),
        merge_run(v, sources).aborted == v.aborted,
        merge_run(v, sources).partial.len() == 0,
        merge_run(v, sources).delivered == v.delivered + concat_all(
            sources.map_values(|b: Seq<Seq<u8>>| concat_all(b)),
        ),
    decreases sources.len(),
{
    let contents = sources.map_values(|b: Seq<Seq<u8>>| concat_all(b));
    if sources.len() == 0 {
        assert(v.delivered + concat_all(contents) =~= v.delivered);
    } else {
        assert(all_nonempty(sources[0]));
        lemma_merge_source(v, sources[0]);
        let w = merge_source(v, sources[0]);
        assert(v.partial + concat_all(sources[0]) =~= concat_all(sources[0]));
        let rest = sources.drop_first();
        assert forall|i: int| 0 <= i < rest.len() implies all_nonempty(#[trigger] rest[i]) by {
            assert(rest[i] == sources[i + 1]);
        }
        lemma_merge_run(w, rest);
        lemma_concat_all_first(contents);
        assert(contents.drop_first() =~= rest.map_values(|b: Seq<Seq<u8>>| concat_all(b)));
        assert(w.delivered + concat_all(contents.drop_first()) =~= v.delivered + concat_all(
            contents,
        ));
    }
}

/// Merging any list of sources, each read block by block to its end,
/// finishes with every source read and the sink handed exactly their
/// concatenation, in order; a source that gave nothing adds nothing. Each
/// source is given as the blocks its reads returned.
pub proof fn lemma_merge_is_concatenation(sources: Seq<Seq<Seq<u8>>>)
    requires
        forall|i: int| 0 <= i < sources.len() ==> all_nonempty(#[trigger] sources[i]),
    ensures
        merge_run(merge_start(sources.len()), sources).current == sources.len(),
        !merge_run(merge_start(sources.len()), sources).aborted,
        merge_run(merge_start(sources.len()), sources).delivered == concat_all(
            sources.map_values(|b: Seq<Seq<u8>>| concat_all(b)),
        ),
{
    let v = merge_start(sources.len());
    lemma_merge_run(v, sources);
    assert(v.delivered + concat_all(sources.map_values(|b: Seq<Seq<u8>>| concat_all(b)))
        =~= concat_all(sources.map_values(|b: Seq<Seq<u8>>| concat_all(b))));
}

/// The next thing that a spread helper does.
#[derive(Clone, Copy, Debug, PartialEq, Eq, Structural)]
pub enum SpreadStep {
    /// Read the next block of the source.
    Read,
    /// Write the current block to the sink with this index.
    WriteTo(usize),
    /// The source has ended: the helper exits.
    Done,
}

pub struct SpreadView {
    pub n_sinks: nat,
    /// The sink that the current block goes to next; `n_sinks` when the
    /// block has reached every sink.
    pub next_sink: nat,
    /// The sinks that a write failed on: they get nothing more.
    pub failed: Seq<bool>,
    pub ended: bool,
    /// Everything read from the source.
    pub source: Seq<u8>,
    /// The block being delivered.
    pub block: Seq<u8>,
    /// What each sink was given.
    pub delivered: Seq<Seq<u8>>,
}

/// The first sink at or after `from` that no write has failed on;
/// `failed.len()` when there is none.
pub open spec fn first_open(failed: Seq<bool>, from: nat) -> nat
    decreases failed.len() - from,
{
    if from >= failed.len() {
        failed.len()
    } else if !failed[from as int] {
        from
    } else {
        first_open(failed, from + 1)
    }
}

pub open spec fn spread_start(n_sinks: nat) -> SpreadView {
    SpreadView {
        n_sinks,
        next_sink: n_sinks,
        failed: Seq::new(n_sinks, |k: int| false),
        ended: false,
        source: Seq::empty(),
        block: Seq::empty(),
        delivered: Seq::new(n_sinks, |k: int| Seq::<u8>::empty()),
    }
}

/// The source gave `block`; an empty block is its end. A new block goes to
/// the first sink that has not failed.
pub open spec fn spread_read(v: SpreadView, block: Seq<u8>) -> SpreadView {
    if block.len() == 0 {
        SpreadView { ended: true, ..v }
    } else {
        SpreadView {
            source: v.source + block,
            block,
            next_sink: first_open(v.failed, 0),
            ..v
        }
    }
}

/// The write of the current block to `next_sink` succeeded (`ok`) or failed;
/// the block then goes to the next sink that has not failed.
pub open spec fn spread_written(v: SpreadView, ok: bool) -> SpreadView {
    let k = v.next_sink;
    if ok {
        SpreadView {
            delivered: v.delivered.update(k as int, v.delivered[k as int] + v.block),
            next_sink: first_open(v.failed, k + 1),
            ..v
        }
    } else {
        SpreadView {
            failed: v.failed.update(k as int, true),
            next_sink: first_open(v.failed.update(k as int, true), k + 1),
            ..v
        }
    }
}

/// The current block written to each remaining sink in turn, every write
/// succeeding; `fuel` bounds the number of writes.
pub open spec fn spread_deliver(v: SpreadView, fuel: nat) -> SpreadView
    decreases fuel,
{
    if fuel == 0 || v.next_sink >= v.n_sinks {
        v
    } else {
        spread_deliver(spread_written(v, true), (fuel - 1) as nat)
    }
}

/// A source given as the blocks its reads returned, each block delivered to
/// every sink, then the end of the source.
pub open spec fn spread_run(v: SpreadView, blocks: Seq<Seq<u8>>) -> SpreadView
    decreases blocks.len(),
{
    if blocks.len() == 0 {
        spread_read(v, Seq::empty())
    } else {
        spread_run(spread_deliver(spread_read(v, blocks[0]), v.n_sinks), blocks.drop_first())
    }
}

/// The decisions of a spread helper, which copies one source to every sink,
/// block by block, each block to the sinks in order before the next is read.
pub struct Spreader {
    n_sinks: usize,
    next_sink: usize,
    failed: Vec<bool>,
    ended: bool,
    source: Ghost<Seq<u8>>,
    block: Ghost<Seq<u8>>,
    delivered: Ghost<Seq<Seq<u8>>>,
}

impl View for Spreader {
    type V = SpreadView;

    closed spec fn view(&self) -> SpreadView {
        SpreadView {
            n_sinks: self.n_sinks as nat,
            next_sink: self.next_sink as nat,
            failed: self.failed@,
            ended: self.ended,
            source: self.source@,
            block: self.block@,
            delivered: self.delivered@,
        }
    }
}

impl Spreader {
    pub open spec fn wf(&self) -> bool {
        let v = self@;
        &&& v.next_sink <= v.n_sinks
        &&& v.failed.len() == v.n_sinks
        &&& v.delivered.len() == v.n_sinks
        &&& v.block.len() <= v.source.len()
        &&& v.next_sink < v.n_sinks ==> !v.failed[v.next_sink as int]
        &&& v.ended ==> v.next_sink == v.n_sinks
        &&& forall|k: int|
            0 <= k < v.n_sinks && !v.failed[k] ==> #[trigger] v.delivered[k] == (if k
                < v.next_sink {
                v.source
            } else {
                v.source.take(v.source.len() - v.block.len())
            })
        &&& v.source == v.source.take(v.source.len() - v.block.len()) + v.block
    }

    /// A spread to `n_sinks` sinks, nothing read yet.
    pub fn new(n_sinks: usize) -> (r: Spreader)
        ensures
            r.wf(),
            r@ == spread_start(n_sinks as nat),
    {
        let mut failed: Vec<bool> = Vec::new();
        let mut k: usize = 0;
        while k < n_sinks
            invariant
                0 <= k <= n_sinks,
                failed@ == Seq::new(k as nat, |j: int| false),
            decreases n_sinks - k,
        {
            failed.push(false);
            k += 1;
            assert(failed@ =~= Seq::new(k as nat, |j: int| false));
        }
        let r = Spreader {
            n_sinks,
            next_sink: n_sinks,
            failed,
            ended: false,
            source: Ghost(Seq::empty()),
            block: Ghost(Seq::empty()),
            delivered: Ghost(Seq::new(n_sinks as nat, |k: int| Seq::<u8>::empty())),
        };
        assert(r@.source.take(0) =~= Seq::<u8>::empty());
        assert(r@.source =~= r@.source.take(0) + r@.block);
        r
    }

    /// The current block goes to every sink that has not failed, in order;
    /// then the next block is read, until the source ends.
    pub fn next_step(&self) -> (r: SpreadStep)
        requires
            self.wf(),
        ensures
            self@.ended ==> r == SpreadStep::Done,
            !self@.ended && self@.next_sink < self@.n_sinks ==> r == SpreadStep::WriteTo(
                self@.next_sink as usize,
            ),
            !self@.ended && self@.next_sink >= self@.n_sinks ==> r == SpreadStep::Read,
    {
        if self.ended {
            SpreadStep::Done
        } else if self.next_sink < self.n_sinks {
            SpreadStep::WriteTo(self.next_sink)
        } else {
            SpreadStep::Read
        }
    }

    /// Moves `next_sink` past the sinks that failed.
    fn skip_failed(&mut self)
        requires
            old(self)@.next_sink <= old(self)@.n_sinks,
            old(self)@.failed.len() == old(self)@.n_sinks,
        ensures
            final(self)@ == (SpreadView { next_sink: final(self)@.next_sink, ..old(self)@ }),
            old(self)@.next_sink <= final(self)@.next_sink <= old(self)@.n_sinks,
            final(self)@.next_sink < final(self)@.n_sinks
                ==> !final(self)@.failed[final(self)@.next_sink as int],
            forall|k: int|
                old(self)@.next_sink <= k < final(self)@.next_sink ==> old(self)@.failed[k],
            final(self)@.next_sink == first_open(old(self)@.failed, old(self)@.next_sink),
    {
        while self.next_sink < self.n_sinks && self.failed[self.next_sink]
            invariant
                self@ == (SpreadView { next_sink: self@.next_sink, ..old(self)@ }),
                old(self)@.next_sink <= self@.next_sink <= self@.n_sinks,
                self@.failed.len() == self@.n_sinks,
                forall|k: int| old(self)@.next_sink <= k < self@.next_sink ==> old(self)@.failed[k],
                first_open(self@.failed, self@.next_sink) == first_open(
                    old(self)@.failed,
                    old(self)@.next_sink,
                ),
            decreases self@.n_sinks - self@.next_sink,
        {
            self.next_sink = self.next_sink + 1;
        }
    }

    /// The source gave `block`; an empty block is its end.
    pub fn on_read(&mut self, block: &[u8])
        requires
            old(self).wf(),
            !old(self)@.ended,
            old(self)@.next_sink == old(self)@.n_sinks,
        ensures
            final(self).wf(),
            final(self)@ == spread_read(old(self)@, block@),
    {
        if block.len() == 0 {
            self.ended = true;
        } else {
            proof {
                let old_source = self.source@;
                let s = old_source + block@;
                assert(s.take(s.len() - block@.len()) =~= old_source);
                assert(s =~= s.take(s.len() - block@.len()) + block@);
                self.source@ = s;
                self.block@ = block@;
            }
            self.next_sink = 0;
            self.skip_failed();
        }
    }

    /// The write of the current block to sink `next_sink` succeeded (`ok`)
    /// or failed; a failed sink gets nothing more.
    pub fn on_written(&mut self, ok: bool)
        requires
            old(self).wf(),
            !old(self)@.ended,
            old(self)@.next_sink < old(self)@.n_sinks,
        ensures
            final(self).wf(),
            final(self)@ == spread_written(old(self)@, ok),
    {
        let k = self.next_sink;
        if ok {
            proof {
                let d = self.delivered@;
                self.delivered@ = d.update(k as int, d[k as int] + self.block@);
            }
        } else {
            self.failed.set(k, true);
        }
        self.next_sink = k + 1;
        self.skip_failed();
    }
}

/// Whatever writes failed, once the source has ended every sink that no
/// write failed on has been handed exactly what the source gave.
pub proof fn lemma_spread_unfailed_sinks_match_source(s: Spreader)
    requires
        s.wf(),
        s@.ended,
    ensures
        forall|k: int|
            0 <= k < s@.n_sinks && !s@.failed[k] ==> #[trigger] s@.delivered[k] == s@.source,
{
}

pub open spec fn no_failures(failed: Seq<bool>, n: nat) -> bool {
    failed.len() == n && forall|k: int| 0 <= k < n ==> !(#[trigger] failed[k])
}

proof fn lemma_first_open_clean(failed: Seq<bool>, n: nat, from: nat)
    requires
        no_failures(failed, n),
        from <= n,
    ensures
        first_open(failed, from) == from,
{
}

proof fn lemma_spread_deliver(v: SpreadView, before: Seq<u8>, fuel: nat)
    requires
        no_failures(v.failed, v.n_sinks),
        v.next_sink <= v.n_sinks,
        fuel >= v.n_sinks - v.next_sink,
        v.delivered.len() == v.n_sinks,
        forall|j: int| 0 <= j < v.next_sink ==> #[trigger] v.delivered[j] == before + v.block,
        forall|j: int| v.next_sink <= j < v.n_sinks ==> #[trigger] v.delivered[j] == before,
    ensures
        spread_deliver(v, fuel) == (SpreadView {
            next_sink: v.n_sinks,
            delivered: spread_deliver(v, fuel).delivered,
            ..v
        }),
        spread_deliver(v, fuel).delivered.len() == v.n_sinks,
        forall|j: int|
            0 <= j < v.n_sinks ==> #[trigger] spread_deliver(v, fuel).delivered[j] == before
                + v.block,
    decreases fuel,
{
    if fuel > 0 && v.next_sink < v.n_sinks {
        lemma_first_open_clean(v.failed, v.n_sinks, v.next_sink + 1);
        let w = spread_written(v, true);
        assert forall|j: int| 0 <= j < w.next_sink implies #[trigger] w.delivered[j] == before
            + w.block by {
            if j < v.next_sink {
                assert(w.delivered[j] == v.delivered[j]);
            }
        }
        lemma_spread_deliver(w, before, (fuel - 1) as nat);
    }
}

proof fn lemma_spread_run(v: SpreadView, blocks: Seq<Seq<u8>>)
    requires
        no_failures(v.failed, v.n_sinks),
        v.next_sink == v.n_sinks,
        v.delivered.len() == v.n_sinks,
        !v.ended,
        forall|j: int| 0 <= j < v.n_sinks ==> #[trigger] v.delivered[j] == v.source,
        all_nonempty(blocks),
    ensures
        spread_run(v, blocks).ended,
        spread_run(v, blocks).n_sinks == v.n_sinks,
        spread_run(v, blocks).source == v.source + concat_all(blocks),
        spread_run(v, blocks).delivered.len() == v.n_sinks,
        forall|j: int|
            0 <= j < v.n_sinks ==> #[trigger] spread_run(v, blocks).delivered[j] == v.source
                + concat_all(blocks),
    decreases blocks.len(),
{
    if blocks.len() == 0 {
        assert(v.source + concat_all(blocks) =~= v.source);
    } else {
        let b = blocks[0];
        assert(b.len() > 0);
        lemma_first_open_clean(v.failed, v.n_sinks, 0);
        let u = spread_read(v, b);
        lemma_spread_deliver(u, v.source, v.n_sinks);
        let w = spread_deliver(u, v.n_sinks);
        let rest = blocks.drop_first();
        assert(all_nonempty(rest)) by {
            assert forall|i: int| 0 <= i < rest.len() implies (#[trigger] rest[i]).len() > 0 by {
                assert(rest[i] == blocks[i + 1]);
            }
        }
        lemma_spread_run(w, rest);
        lemma_concat_all_first(blocks);
        assert(w.source + concat_all(rest) =~= v.source + concat_all(blocks));
    }
}

/// Spreading a source to any number of sinks, every write succeeding,
/// finishes with the source read to its end and every sink handed exactly
/// what the source gave, byte for byte and in order. The source is given as
/// the blocks its reads returned.
pub proof fn lemma_spread_copies_source(n_sinks: nat, blocks: Seq<Seq<u8>>)
    requires
        all_nonempty(blocks),
    ensures
        spread_run(spread_start(n_sinks), blocks).ended,
        spread_run(spread_start(n_sinks), blocks).source == concat_all(blocks),
        spread_run(spread_start(n_sinks), blocks).delivered.len() == n_sinks,
        forall|j: int|
            0 <= j < n_sinks ==> #[trigger] spread_run(spread_start(n_sinks), blocks).delivered[j]
                == concat_all(blocks),
{
    let v = spread_start(n_sinks);
    lemma_spread_run(v, blocks);
    assert(v.source + concat_all(blocks) =~= concat_all(blocks));
}

} // verus!
