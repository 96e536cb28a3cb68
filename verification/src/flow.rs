use crate::conf::{IpAddr, MacAddr, Protocol};
use vstd::prelude::*;

verus! {

/// One captured link-layer frame in canonical form. The payload is the
/// network-layer datagram, with the link-layer header stripped.
#[derive(Clone, Debug)]
pub struct Frame {
    pub orig_mac: MacAddr,
    pub dest_mac: MacAddr,
    pub protocol: Protocol,
    pub orig_ip: IpAddr,
    pub dest_ip: IpAddr,
    pub payload: Vec<u8>,
}

/// Whether two frames travel between the same pair of link-layer addresses.
pub open spec fn same_pair(a: Frame, b: Frame) -> bool {
    a.orig_mac@ == b.orig_mac@ && a.dest_mac@ == b.dest_mac@
}

/// The sum of the payload lengths of a run of frames.
pub open spec fn sum_payload(frames: Seq<Frame>) -> nat
    decreases frames.len(),
{
    if frames.len() == 0 {
        0
    } else {
        sum_payload(frames.drop_last()) + frames.last().payload@.len()
    }
}

/// The payloads of a run of frames, concatenated in order.
pub open spec fn concat_payloads(frames: Seq<Frame>) -> Seq<u8>
    decreases frames.len(),
{
    if frames.len() == 0 {
        Seq::empty()
    } else {
        concat_payloads(frames.drop_last()) + frames.last().payload@
    }
}

/// One finalized flow: an aggregation of consecutive frames that shared one
/// link-layer address pair. Timestamps count milliseconds from the capture
/// anchor.
#[derive(Clone, Debug)]
pub struct FlowRecord {
    pub protocol: Protocol,
    pub orig_ip: IpAddr,
    pub orig_mac: MacAddr,
    pub dest_ip: IpAddr,
    pub dest_mac: MacAddr,
    pub bytes: u64,
    pub packets: u64,
    pub timestamp: u64,
    pub raw: Vec<u8>,
}

/// The one open group of buffered frames; frames buffered so far all share
/// one link-layer address pair.
pub struct Aggregator {
    pub frames: Vec<Frame>,
}

impl Aggregator {
    /// The buffered frames all share the pair of the first one, and their
    /// byte total is representable.
    pub open spec fn wf(&self) -> bool {
        &&& forall|i: int|
            0 <= i < self.frames@.len() ==> same_pair(self.frames@[0], #[trigger] self.frames@[i])
        &&& sum_payload(self.frames@) <= u64::MAX
    }

    /// A fresh aggregator holding no frames.
    pub fn new() -> (a: Aggregator)
        ensures
            a.wf(),
            a.frames@.len() == 0,
    {
        Aggregator { frames: Vec::new() }
    }

    /// Feeds one frame. A frame sharing the buffered pair, or arriving into
    /// an empty buffer, is appended and nothing is emitted. A frame breaking
    /// the pair closes the buffered group into a record — protocol and pair
    /// from the group's first frame, addresses from the breaking frame, byte
    /// and packet counts over the group, stamped `now` — and starts a new
    /// group holding only the breaking frame.
    pub fn push(&mut self, frame: Frame, now: u64) -> (r: Option<FlowRecord>)
        requires
            old(self).wf(),
            sum_payload(old(self).frames@) + frame.payload@.len() <= u64::MAX,
        ensures
            final(self).wf(),
            (old(self).frames@.len() == 0 || same_pair(old(self).frames@.last(), frame)) ==> r
                is None && final(self).frames@ == old(self).frames@.push(frame),
            (old(self).frames@.len() > 0 && !same_pair(old(self).frames@.last(), frame)) ==> {
                &&& r is Some
                &&& r->0.protocol == old(self).frames@[0].protocol
                &&& r->0.orig_mac@ == old(self).frames@[0].orig_mac@
                &&& r->0.dest_mac@ == old(self).frames@[0].dest_mac@
                &&& r->0.orig_ip == frame.orig_ip
                &&& r->0.dest_ip == frame.dest_ip
                &&& r->0.bytes as nat == sum_payload(old(self).frames@)
                &&& r->0.packets as nat == old(self).frames@.len()
                &&& r->0.timestamp == now
                &&& r->0.raw@ == concat_payloads(old(self).frames@)
                &&& final(self).frames@ =~= seq![frame]
            },
    {
        let n = self.frames.len();
        if n == 0 {
            proof {
                lemma_sum_payload_push(self.frames@, frame);
            }
            self.frames.push(frame);
            return None;
        }
        let same = {
            let last = &self.frames[n - 1];
            last.orig_mac.eq_mac(&frame.orig_mac) && last.dest_mac.eq_mac(&frame.dest_mac)
        };
        if same {
            proof {
                lemma_sum_payload_push(self.frames@, frame);
            }
            self.frames.push(frame);
            None
        } else {
            let mut total_bytes: u64 = 0;
            let mut raw: Vec<u8> = Vec::new();
            let mut i: usize = 0;
            proof {
                assert(self.frames@.take(0) =~= Seq::<Frame>::empty());
                assert(raw@ =~= concat_payloads(self.frames@.take(0)));
            }
            while i < n
                invariant
                    i <= n == self.frames@.len(),
                    sum_payload(self.frames@) <= u64::MAX,
                    total_bytes as nat == sum_payload(self.frames@.take(i as int)),
                    raw@ == concat_payloads(self.frames@.take(i as int)),
                decreases n - i,
            {
                proof {
                    lemma_sum_payload_take_step(self.frames@, i as int);
                    lemma_concat_payloads_take_step(self.frames@, i as int);
                    lemma_sum_payload_prefix_bound(self.frames@, i + 1);
                }
                let ghost pre_raw = raw@;
                let payload = &self.frames[i].payload;
                let m = payload.len();
                let mut j: usize = 0;
                while j < m
                    invariant
                        j <= m == payload@.len(),
                        raw@ == pre_raw + payload@.take(j as int),
                    decreases m - j,
                {
                    raw.push(payload[j]);
                    proof {
                        assert(raw@ =~= pre_raw + payload@.take(j + 1));
                    }
                    j = j + 1;
                }
                proof {
                    assert(payload@.take(m as int) =~= payload@);
                    assert(raw@ =~= concat_payloads(self.frames@.take(i + 1)));
                }
                total_bytes = total_bytes + (m as u64);
                i = i + 1;
            }
            proof {
                assert(self.frames@.take(n as int) =~= self.frames@);
            }
            let rec = FlowRecord {
                protocol: self.frames[0].protocol,
                orig_ip: frame.orig_ip,
                orig_mac: self.frames[0].orig_mac,
                dest_ip: frame.dest_ip,
                dest_mac: self.frames[0].dest_mac,
                bytes: total_bytes,
                packets: n as u64,
                timestamp: now,
                raw,
            };
            self.frames = Vec::new();
            proof {
                lemma_sum_payload_push(self.frames@, frame);
            }
            self.frames.push(frame);
            Some(rec)
        }
    }
}

proof fn lemma_sum_payload_push(s: Seq<Frame>, f: Frame)
    ensures
        sum_payload(s.push(f)) == sum_payload(s) + f.payload@.len(),
{
    assert(s.push(f).drop_last() =~= s);
    assert(s.push(f).last() == f);
}

proof fn lemma_sum_payload_take_step(s: Seq<Frame>, i: int)
    requires
        0 <= i < s.len(),
    ensures
        sum_payload(s.take(i + 1)) == sum_payload(s.take(i)) + s[i].payload@.len(),
{
    assert(s.take(i + 1).drop_last() =~= s.take(i));
    assert(s.take(i + 1).last() == s[i]);
}

proof fn lemma_concat_payloads_take_step(s: Seq<Frame>, i: int)
    requires
        0 <= i < s.len(),
    ensures
        concat_payloads(s.take(i + 1)) == concat_payloads(s.take(i)) + s[i].payload@,
{
    assert(s.take(i + 1).drop_last() =~= s.take(i));
    assert(s.take(i + 1).last() == s[i]);
}

proof fn lemma_sum_payload_prefix_bound(s: Seq<Frame>, k: int)
    requires
        0 <= k <= s.len(),
    ensures
        sum_payload(s.take(k)) <= sum_payload(s),
    decreases s.len() - k,
{
    if k < s.len() {
        lemma_sum_payload_prefix_bound(s, k + 1);
        lemma_sum_payload_take_step(s, k);
    } else {
        assert(s.take(k) =~= s);
    }
}

/// The sum of the payload lengths of the frames from position `i` on.
proof fn lemma_sum_payload_skip_step(s: Seq<Frame>, i: int)
    requires
        0 <= i < s.len(),
    ensures
        sum_payload(s.skip(i)) == s[i].payload@.len() + sum_payload(s.skip(i + 1)),
    decreases s.len(),
{
    if i == s.len() - 1 {
        assert(s.skip(i) =~= seq![s[i]]);
        assert(s.skip(i).drop_last() =~= Seq::<Frame>::empty());
        assert(s.skip(i + 1) =~= Seq::<Frame>::empty());
    } else {
        let d = s.drop_last();
        assert(s.skip(i).drop_last() =~= d.skip(i));
        assert(s.skip(i).last() == s.last());
        assert(s.skip(i + 1).drop_last() =~= d.skip(i + 1));
        assert(s.skip(i + 1).last() == s.last());
        lemma_sum_payload_skip_step(d, i);
        assert(d[i] == s[i]);
    }
}

/// The positions, after the first frame, where a frame does not share its
/// pair with its predecessor: each starts a new maximal run.
pub open spec fn boundary_count(frames: Seq<Frame>) -> nat
    decreases frames.len(),
{
    if frames.len() <= 1 {
        0
    } else {
        boundary_count(frames.drop_last()) + if same_pair(
            frames[frames.len() - 2],
            frames.last(),
        ) {
            0nat
        } else {
            1nat
        }
    }
}

/// The number of maximal runs of consecutive frames sharing one link-layer
/// address pair.
pub open spec fn run_count(frames: Seq<Frame>) -> nat {
    if frames.len() == 0 {
        0
    } else {
        boundary_count(frames) + 1
    }
}

proof fn lemma_boundary_count_take_step(s: Seq<Frame>, i: int)
    requires
        1 <= i < s.len(),
    ensures
        boundary_count(s.take(i + 1)) == boundary_count(s.take(i)) + if same_pair(
            s[i - 1],
            s[i],
        ) {
            0nat
        } else {
            1nat
        },
{
    assert(s.take(i + 1).drop_last() =~= s.take(i));
    assert(s.take(i + 1).last() == s[i]);
    assert(s.take(i + 1)[i - 1] == s[i - 1]);
}

/// Feeds a pre-captured frame sequence, in arrival order, through a fresh
/// aggregator; `times[i]` is the completion stamp used if frame `i` closes a
/// group. Returns the emitted records and the aggregator still holding the
/// trailing open run: the number of records emitted is the number of maximal
/// same-pair runs, less the one still open at the end.
pub fn aggregate_all(frames: Vec<Frame>, times: &Vec<u64>) -> (out: (Vec<FlowRecord>, Aggregator))
    requires
        times@.len() == frames@.len(),
        sum_payload(frames@) <= u64::MAX,
    ensures
        out.0@.len() == boundary_count(frames@),
        frames@.len() > 0 ==> out.0@.len() + 1 == run_count(frames@),
        frames@.len() == 0 ==> out.0@.len() == run_count(frames@),
        out.1.wf(),
    {
    let ghost orig = frames@;
    let n_total = frames.len();
    proof {
        assert(orig.len() == n_total as nat);
    }
    // reverse into a stack so frames can be moved out in arrival order
    let mut rest = frames;
    let mut stack: Vec<Frame> = Vec::new();
    proof {
        assert(orig =~= rest@ + stack@.reverse());
    }
    while rest.len() > 0
        invariant
            orig =~= rest@ + stack@.reverse(),
        decreases rest@.len(),
    {
        let ghost pre_rest = rest@;
        let ghost pre_stack = stack@;
        let f = rest.pop().unwrap();
        stack.push(f);
        proof {
            assert(pre_stack.push(f).reverse() =~= seq![f] + pre_stack.reverse());
            assert(orig =~= rest@ + stack@.reverse());
        }
    }
    let mut agg = Aggregator::new();
    let mut records: Vec<FlowRecord> = Vec::new();
    let mut i: usize = 0;
    proof {
        assert(stack@.reverse() =~= orig);
        assert(orig.skip(0) =~= orig);
        assert(stack@ =~= orig.skip(0).reverse());
        assert(orig.take(0) =~= Seq::<Frame>::empty());
    }
    while stack.len() > 0
        invariant
            times@.len() == orig.len(),
            orig.len() <= usize::MAX,
            i <= orig.len(),
            stack@ =~= orig.skip(i as int).reverse(),
            agg.wf(),
            records@.len() == boundary_count(orig.take(i as int)),
            i == 0 ==> agg.frames@.len() == 0,
            i > 0 ==> agg.frames@.len() > 0 && agg.frames@.last() == orig[i - 1],
            sum_payload(agg.frames@) + sum_payload(orig.skip(i as int)) <= u64::MAX,
        decreases stack@.len(),
    {
        let ghost pre_agg = agg.frames@;
        proof {
            assert(orig.skip(i as int).reverse().len() == orig.skip(i as int).len());
            assert(i < orig.len());
        }
        let f = stack.pop().unwrap();
        proof {
            assert(orig.skip(i as int).reverse().last() == orig.skip(i as int)[0]);
            assert(orig.skip(i as int)[0] == orig[i as int]);
            assert(stack@ =~= orig.skip(i as int).reverse().drop_last());
            assert(orig.skip(i as int).reverse().drop_last() =~= orig.skip(i + 1).reverse());
            lemma_sum_payload_skip_step(orig, i as int);
        }
        let r = agg.push(f, times[i]);
        match r {
            Some(rec) => {
                proof {
                    assert(i > 0 && !same_pair(orig[i - 1], orig[i as int]));
                    lemma_boundary_count_take_step(orig, i as int);
                    assert(seq![f].drop_last() =~= Seq::<Frame>::empty());
                    assert(seq![f].last() == f);
                    assert(sum_payload(Seq::<Frame>::empty()) == 0);
                    assert(sum_payload(seq![f]) == f.payload@.len());
                }
                records.push(rec);
            },
            None => {
                proof {
                    if i > 0 {
                        lemma_boundary_count_take_step(orig, i as int);
                    } else {
                        assert(orig.take(1).drop_last() =~= orig.take(0));
                    }
                    lemma_sum_payload_push(pre_agg, f);
                }
            },
        }
        i = i + 1;
    }
    proof {
        assert(orig.take(i as int) =~= orig);
        assert(orig.skip(i as int) =~= Seq::<Frame>::empty());
    }
    (records, agg)
}

} // verus!
