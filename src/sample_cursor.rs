use vstd::prelude::*;

verus! {

/// A cursor as a mathematical value: the samples and the position of the
/// next one.
pub struct CursorModel {
    pub data: Seq<u32>,
    pub pos: nat,
}

/// Reading one value: the sample at the position, which then moves on; at
/// the end, silence (`0`, the bits of `0.0`) and the position stays.
pub open spec fn cursor_step(c: CursorModel) -> (CursorModel, u32) {
    if c.pos < c.data.len() {
        (CursorModel { data: c.data, pos: c.pos + 1 }, c.data[c.pos as int])
    } else {
        (c, 0u32)
    }
}

pub open spec fn cursor_done(c: CursorModel) -> bool {
    c.pos >= c.data.len()
}

/// `k` reads in a row: the cursor after them and the values read, in order.
pub open spec fn cursor_run(c: CursorModel, k: nat) -> (CursorModel, Seq<u32>)
    decreases k,
{
    if k == 0 {
        (c, Seq::<u32>::empty())
    } else {
        let (c1, vs) = cursor_run(c, (k - 1) as nat);
        let (c2, v) = cursor_step(c1);
        (c2, vs.push(v))
    }
}

/// A one-pass producer of the samples of one clip, each sample held as the
/// bits of a 32-bit float. It owns its copy of the samples, so it can be
/// moved into a real-time callback on another thread.
#[derive(Debug)]
pub struct SoundDataIter {
    data: Vec<u32>,
    current: usize,
}

impl View for SoundDataIter {
    type V = CursorModel;

    closed spec fn view(&self) -> CursorModel {
        CursorModel { data: self.data@, pos: self.current as nat }
    }
}

impl SoundDataIter {
    /// The position never passes the end.
    pub open spec fn wf(&self) -> bool {
        self@.pos <= self@.data.len()
    }

    /// A cursor at the first sample of `sound_data`.
    pub fn new(sound_data: &Vec<u32>) -> (r: SoundDataIter)
        ensures
            r@ == (CursorModel { data: sound_data@, pos: 0 }),
            r.wf(),
    {
        let data = sound_data.clone();
        assert(data@ =~= sound_data@);
        SoundDataIter { data, current: 0 }
    }

    /// The next sample; silence once the clip is over. Never reads outside
    /// the samples.
    pub fn next_value(&mut self) -> (r: u32)
        requires
            old(self).wf(),
        ensures
            (final(self)@, r) == cursor_step(old(self)@),
            final(self).wf(),
    {
        if self.current < self.data.len() {
            let v = self.data[self.current];
            self.current = self.current + 1;
            v
        } else {
            0
        }
    }

    /// Fills every slot of `out`, in order, with the next sample (each
    /// interleaved channel slot gets its own read), and returns whether the
    /// clip is over, which a real-time callback then reports.
    pub fn fill(&mut self, out: &mut [u32]) -> (r: bool)
        requires
            old(self).wf(),
        ensures
            final(self).wf(),
            (final(self)@, final(out)@) == cursor_run(old(self)@, old(out)@.len() as nat),
            r == cursor_done(final(self)@),
    {
        let ghost start = self@;
        let n = out.len();
        let mut i: usize = 0;
        assert(out@.take(0) =~= Seq::<u32>::empty());
        while i < n
            invariant
                n == out@.len(),
                i <= n,
                self.wf(),
                (self@, out@.take(i as int)) == cursor_run(start, i as nat),
            decreases n - i,
        {
            let ghost before = out@.take(i as int);
            let v = self.next_value();
            out[i] = v;
            assert(out@.take(i + 1) =~= before.push(v));
            i = i + 1;
        }
        assert(out@.take(n as int) =~= out@);
        self.is_done()
    }

    /// Whether every sample has been read.
    pub fn is_done(&self) -> (r: bool)
        requires
            self.wf(),
        ensures
            r == cursor_done(self@),
    {
        self.current == self.data.len()
    }
}

proof fn lemma_cursor_prefix(data: Seq<u32>, k: nat)
    requires
        k <= data.len(),
    ensures
        cursor_run(CursorModel { data, pos: 0 }, k) == (CursorModel { data, pos: k }, data.take(
            k as int,
        )),
    decreases k,
{
    if k > 0 {
        lemma_cursor_prefix(data, (k - 1) as nat);
        assert(data.take((k - 1) as int).push(data[(k - 1) as int]) =~= data.take(k as int));
    } else {
        assert(data.take(0) =~= Seq::<u32>::empty());
    }
}

/// From a fresh cursor over `n` samples, `n` reads give the samples in
/// order; the cursor is not done after fewer reads and is done after `n`;
/// reads after that give silence and change nothing.
pub proof fn lemma_cursor_single_pass(data: Seq<u32>, k: nat)
    ensures
        k <= data.len() ==> cursor_run(CursorModel { data, pos: 0 }, k) == (
        CursorModel { data, pos: k }, data.take(k as int)),
        k < data.len() ==> !cursor_done(cursor_run(CursorModel { data, pos: 0 }, k).0),
        cursor_run(CursorModel { data, pos: 0 }, data.len()).1 == data,
        cursor_done(cursor_run(CursorModel { data, pos: 0 }, data.len()).0),
        cursor_step(CursorModel { data, pos: data.len() }) == (CursorModel { data, pos: data.len() }, 0u32),
{
    if k <= data.len() {
        lemma_cursor_prefix(data, k);
    }
    lemma_cursor_prefix(data, data.len());
    assert(data.take(data.len() as int) =~= data);
}

} // verus!
