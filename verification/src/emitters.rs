use vstd::prelude::*;

verus! {

/// How often recording levels are sent, in milliseconds.
pub const LEVEL_DISPATCH_INTERVAL_MS: u64 = 48;

/// How often recorded audio chunks are sent, in milliseconds.
pub const CHUNK_DISPATCH_INTERVAL_MS: u64 = 100;

/// How many level bins one update holds.
pub const LEVEL_BIN_COUNT: usize = 12;

/// Milliseconds from `last` to `now` on a monotonic clock, zero when `now` reads earlier.
pub open spec fn elapsed(last: u64, now: u64) -> int {
    if now >= last { now - last } else { 0 }
}

/// Whether an event at `now` may be sent: the first always, later ones once `interval`
/// has passed since the last one sent.
pub open spec fn may_send(last: Option<u64>, now: u64, interval: u64) -> bool {
    match last {
        None => true,
        Some(l) => elapsed(l, now) >= interval,
    }
}

/// A throttle: lets an event through at most once per interval.
pub struct EmitThrottle {
    pub interval_ms: u64,
    pub last_emit_ms: Option<u64>,
}

impl EmitThrottle {
    /// A throttle that has let nothing through yet.
    pub fn new(interval_ms: u64) -> (r: EmitThrottle)
        ensures
            r.interval_ms == interval_ms,
            r.last_emit_ms is None,
    {
        EmitThrottle { interval_ms, last_emit_ms: None }
    }

    /// Whether an event at `now_ms` goes through; when it does, it becomes the last one.
    pub fn try_emit(&mut self, now_ms: u64) -> (sent: bool)
        ensures
            sent == may_send(old(self).last_emit_ms, now_ms, old(self).interval_ms),
            final(self).interval_ms == old(self).interval_ms,
            final(self).last_emit_ms == (if sent { Some(now_ms) } else { old(self).last_emit_ms }),
    {
        let send = match self.last_emit_ms {
            None => true,
            Some(last) => {
                let gap: u64 = if now_ms >= last { now_ms - last } else { 0 };
                gap >= self.interval_ms
            },
        };
        if send {
            self.last_emit_ms = Some(now_ms);
        }
        send
    }
}

/// Two events that a throttle lets through, on a clock that does not run backwards, are
/// at least its interval apart.
pub proof fn lemma_throttle_spacing(interval: u64, first: u64, second: u64)
    requires
        first <= second,
        may_send(Some(first), second, interval),
    ensures
        second - first >= interval,
{
}

/// Sends recording levels at most once per level interval.
pub struct LevelEmitter {
    pub throttle: EmitThrottle,
}

impl LevelEmitter {
    /// A level emitter that has sent nothing yet.
    pub fn new() -> (r: LevelEmitter)
        ensures
            r.throttle.interval_ms == LEVEL_DISPATCH_INTERVAL_MS,
            r.throttle.last_emit_ms is None,
    {
        LevelEmitter { throttle: EmitThrottle::new(LEVEL_DISPATCH_INTERVAL_MS) }
    }

    /// Whether levels computed from `sample_count` samples at `now_ms` are sent: never for
    /// no samples, otherwise as the throttle allows.
    pub fn should_emit(&mut self, sample_count: usize, now_ms: u64) -> (sent: bool)
        ensures
            sent == (sample_count > 0 && may_send(old(self).throttle.last_emit_ms, now_ms, old(self).throttle.interval_ms)),
            final(self).throttle.interval_ms == old(self).throttle.interval_ms,
            final(self).throttle.last_emit_ms == (if sent { Some(now_ms) } else { old(self).throttle.last_emit_ms }),
    {
        if sample_count == 0 {
            return false;
        }
        self.throttle.try_emit(now_ms)
    }
}

/// The level bin a sample falls in: samples are split into twelve runs of equal length
/// (at least one), and what is left over joins the last bin.
pub open spec fn level_bin(index: int, sample_count: int) -> int {
    let per_bin = if sample_count / (LEVEL_BIN_COUNT as int) > 1 { sample_count / (LEVEL_BIN_COUNT as int) } else { 1 };
    if index / per_bin < LEVEL_BIN_COUNT - 1 { index / per_bin } else { LEVEL_BIN_COUNT - 1 }
}

/// The level bin of the sample at `index` among `sample_count` samples.
pub fn level_bin_index(index: usize, sample_count: usize) -> (r: usize)
    ensures
        r == level_bin(index as int, sample_count as int),
        r < LEVEL_BIN_COUNT,
{
    let q = sample_count / LEVEL_BIN_COUNT;
    let per_bin = if q > 1 { q } else { 1 };
    let b = index / per_bin;
    if b < LEVEL_BIN_COUNT - 1 {
        b
    } else {
        LEVEL_BIN_COUNT - 1
    }
}

/// The state of a chunk emitter: its throttle and the samples not yet sent.
pub struct ChunkState<T> {
    pub last_emit_ms: Option<u64>,
    pub pending: Seq<T>,
}

/// What a chunk emitter does with `samples` at `now`: nothing for no samples; otherwise
/// the samples join the pending ones, and when the throttle allows and something is
/// pending, all of it is sent and nothing stays pending.
pub open spec fn chunk_step<T>(s: ChunkState<T>, samples: Seq<T>, now: u64, interval: u64) -> (ChunkState<T>, Option<Seq<T>>) {
    if samples.len() == 0 {
        (s, None)
    } else {
        let pending = s.pending + samples;
        if may_send(s.last_emit_ms, now, interval) {
            let st = ChunkState { last_emit_ms: Some(now), pending: Seq::empty() };
            if pending.len() > 0 { (st, Some(pending)) } else { (st, None) }
        } else {
            (ChunkState { last_emit_ms: s.last_emit_ms, pending }, None)
        }
    }
}

/// Sends recorded samples in chunks, at most once per chunk interval.
pub struct ChunkEmitter<T> {
    pub throttle: EmitThrottle,
    pub buffer: Vec<T>,
}

impl<T: Copy> ChunkEmitter<T> {
    /// A chunk emitter with nothing pending.
    pub fn new() -> (r: ChunkEmitter<T>)
        ensures
            r.throttle.interval_ms == CHUNK_DISPATCH_INTERVAL_MS,
            r.throttle.last_emit_ms is None,
            r.buffer@.len() == 0,
    {
        ChunkEmitter { throttle: EmitThrottle::new(CHUNK_DISPATCH_INTERVAL_MS), buffer: Vec::new() }
    }

    pub open spec fn state(&self) -> ChunkState<T> {
        ChunkState { last_emit_ms: self.throttle.last_emit_ms, pending: self.buffer@ }
    }

    /// Takes `samples` recorded at `now_ms`, and returns the chunk to send, if any.
    pub fn emit(&mut self, samples: &[T], now_ms: u64) -> (chunk: Option<Vec<T>>)
        ensures
            final(self).throttle.interval_ms == old(self).throttle.interval_ms,
            final(self).state() == chunk_step(old(self).state(), samples@, now_ms, old(self).throttle.interval_ms).0,
            match chunk {
                Some(c) => chunk_step(old(self).state(), samples@, now_ms, old(self).throttle.interval_ms).1 == Some(c@),
                None => chunk_step(old(self).state(), samples@, now_ms, old(self).throttle.interval_ms).1 is None,
            },
    {
        if samples.len() == 0 {
            return None;
        }
        let ghost before = self.buffer@;
        let mut k: usize = 0;
        while k < samples.len()
            invariant
                k <= samples@.len(),
                self.buffer@ == before + samples@.take(k as int),
                self.throttle == old(self).throttle,
            decreases samples@.len() - k,
        {
            self.buffer.push(samples[k]);
            k += 1;
            assert(self.buffer@ =~= before + samples@.take(k as int));
        }
        assert(samples@.take(samples@.len() as int) =~= samples@);
        if self.throttle.try_emit(now_ms) {
            if self.buffer.len() > 0 {
                let mut out: Vec<T> = Vec::new();
                std::mem::swap(&mut out, &mut self.buffer);
                return Some(out);
            }
        }
        None
    }
}

/// The chunks sent for a series of sample batches, each taken at its time, all joined.
pub open spec fn sent_through<T>(s: ChunkState<T>, batches: Seq<(Seq<T>, u64)>, interval: u64) -> Seq<T>
    decreases batches.len(),
{
    if batches.len() == 0 {
        Seq::empty()
    } else {
        let (st, out) = chunk_step(s, batches[0].0, batches[0].1, interval);
        (match out { Some(c) => c, None => Seq::empty() }) + sent_through(st, batches.skip(1), interval)
    }
}

/// The state after a series of sample batches.
pub open spec fn state_after<T>(s: ChunkState<T>, batches: Seq<(Seq<T>, u64)>, interval: u64) -> ChunkState<T>
    decreases batches.len(),
{
    if batches.len() == 0 {
        s
    } else {
        state_after(chunk_step(s, batches[0].0, batches[0].1, interval).0, batches.skip(1), interval)
    }
}

/// All the samples handed over, in order.
pub open spec fn all_samples<T>(batches: Seq<(Seq<T>, u64)>) -> Seq<T>
    decreases batches.len(),
{
    if batches.len() == 0 {
        Seq::empty()
    } else {
        batches[0].0 + all_samples(batches.skip(1))
    }
}

/// No sample is lost or repeated: what was pending, then every sample handed over, is
/// exactly what was sent followed by what is still pending, in the same order.
pub proof fn lemma_chunks_keep_every_sample<T>(s: ChunkState<T>, batches: Seq<(Seq<T>, u64)>, interval: u64)
    ensures
        s.pending + all_samples(batches) == sent_through(s, batches, interval) + state_after(s, batches, interval).pending,
    decreases batches.len(),
{
    if batches.len() == 0 {
        assert(s.pending + Seq::<T>::empty() =~= Seq::<T>::empty() + s.pending);
    } else {
        let (st, out) = chunk_step(s, batches[0].0, batches[0].1, interval);
        lemma_chunks_keep_every_sample(st, batches.skip(1), interval);
        let sent_now = match out { Some(c) => c, None => Seq::<T>::empty() };
        assert(s.pending + batches[0].0 =~= sent_now + st.pending);
        assert(s.pending + all_samples(batches) =~= s.pending + batches[0].0 + all_samples(batches.skip(1)));
        assert(sent_through(s, batches, interval) == sent_now + sent_through(st, batches.skip(1), interval));
        assert(s.pending + all_samples(batches) =~= sent_through(s, batches, interval) + state_after(s, batches, interval).pending);
    }
}

} // verus!
