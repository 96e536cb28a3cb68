use crate::conf::Config;
use crate::flow::FlowRecord;
use crate::pipeline::{line_of, spec_display_dest, spec_display_orig, spec_highlighted, spec_shown};
use vstd::prelude::*;

verus! {

/// The persisted unit of replay state: flow records in capture order and the
/// single anchor instant, in milliseconds, shared by the whole document.
pub struct PacketLog {
    pub packets: Vec<FlowRecord>,
    pub start_time: u64,
}

impl PacketLog {
    /// A fresh, empty document anchored at `now`.
    pub fn new(now: u64) -> (d: PacketLog)
        ensures
            d.packets@.len() == 0,
            d.start_time == now,
    {
        PacketLog { packets: Vec::new(), start_time: now }
    }

    /// Appends one record at the end; the anchor is fixed at first write and
    /// never moves on appends.
    pub fn append(&mut self, record: FlowRecord)
        ensures
            final(self).packets@ == old(self).packets@.push(record),
            final(self).start_time == old(self).start_time,
    {
        self.packets.push(record);
    }
}

/// The document that one append pass leaves behind: the document read back
/// from the file, or — where the file was missing or unreadable — a fresh
/// one anchored at `now`; either way with the new record pushed at the end.
pub fn appended_document(loaded: Option<PacketLog>, record: FlowRecord, now: u64) -> (d: PacketLog)
    ensures
        loaded matches Some(l) ==> d.start_time == l.start_time && d.packets@ == l.packets@.push(
            record,
        ),
        loaded is None ==> d.start_time == now && d.packets@ =~= seq![record],
{
    let mut d = match loaded {
        Some(l) => l,
        None => PacketLog::new(now),
    };
    d.append(record);
    d
}

/// Builds the document that a live run leaves behind: a fresh document
/// anchored at `start_time`, with the run's records appended one by one in
/// capture order. The document then holds exactly those records, in order.
pub fn append_run(records: Vec<FlowRecord>, start_time: u64) -> (d: PacketLog)
    ensures
        d.start_time == start_time,
        d.packets@ == records@,
{
    let ghost orig = records@;
    let mut rest = records;
    let mut stack: Vec<FlowRecord> = Vec::new();
    proof {
        assert(orig =~= rest@ + stack@.reverse());
    }
    while rest.len() > 0
        invariant
            orig =~= rest@ + stack@.reverse(),
        decreases rest@.len(),
    {
        let ghost pre_stack = stack@;
        let f = rest.pop().unwrap();
        stack.push(f);
        proof {
            assert(pre_stack.push(f).reverse() =~= seq![f] + pre_stack.reverse());
            assert(orig =~= rest@ + stack@.reverse());
        }
    }
    let mut d = PacketLog::new(start_time);
    proof {
        assert(stack@.reverse() =~= orig);
        assert(d.packets@ + stack@.reverse() =~= orig);
    }
    while stack.len() > 0
        invariant
            d.start_time == start_time,
            d.packets@ + stack@.reverse() =~= orig,
        decreases stack@.len(),
    {
        let ghost pre_stack = stack@;
        let ghost pre_packets = d.packets@;
        let r = stack.pop().unwrap();
        d.append(r);
        proof {
            assert(pre_stack.reverse() =~= seq![r] + pre_stack.drop_last().reverse());
            assert(d.packets@ + stack@.reverse() =~= orig);
        }
    }
    proof {
        assert(stack@.reverse() =~= Seq::<FlowRecord>::empty());
        assert(d.packets@ =~= orig);
    }
    d
}

/// Replay fidelity: a document holding the records of a live run under the
/// run's anchor replays, record for record, to the very display decisions
/// and lines of the live run, since the pipeline's outcome is a function of
/// record, policy, resolution results and anchor alone.
pub proof fn lemma_replay_fidelity(
    doc: PacketLog,
    live: Seq<FlowRecord>,
    cfg: Config,
    start_time: u64,
)
    requires
        doc.packets@ == live,
        doc.start_time == start_time,
    ensures
        forall|i: int, ro: Option<String>, rd: Option<String>|
            0 <= i < live.len() ==> #[trigger] spec_shown(doc.packets@[i], cfg, ro, rd)
                == spec_shown(live[i], cfg, ro, rd) && spec_highlighted(
                cfg,
                spec_display_orig(doc.packets@[i], cfg, ro),
                spec_display_dest(doc.packets@[i], cfg, rd),
                doc.packets@[i].orig_mac@,
                doc.packets@[i].dest_mac@,
            ) == spec_highlighted(
                cfg,
                spec_display_orig(live[i], cfg, ro),
                spec_display_dest(live[i], cfg, rd),
                live[i].orig_mac@,
                live[i].dest_mac@,
            ) && line_of(
                doc.packets@[i],
                spec_display_orig(doc.packets@[i], cfg, ro),
                spec_display_dest(doc.packets@[i], cfg, rd),
                doc.start_time as nat,
                cfg.verbose,
            ) == line_of(
                live[i],
                spec_display_orig(live[i], cfg, ro),
                spec_display_dest(live[i], cfg, rd),
                start_time as nat,
                cfg.verbose,
            ),
{
}

/// A record's offset from the anchor, clamped at zero: a stamp before the
/// anchor, out of order, counts as no offset rather than failing.
pub open spec fn clamp_delta(t: u64, start: u64) -> nat {
    if t >= start {
        (t - start) as nat
    } else {
        0
    }
}

/// The total slept after the waits of the first `k` records of a paced
/// replay: each record waits until its own clamped offset has elapsed, so
/// the total is the running maximum of the clamped offsets.
pub open spec fn slept_after(ts: Seq<u64>, start: u64, k: int) -> nat
    decreases k,
{
    if k <= 0 {
        0
    } else {
        let prev = slept_after(ts, start, k - 1);
        let d = clamp_delta(ts[k - 1], start);
        if d > prev {
            d
        } else {
            prev
        }
    }
}

/// One paced-replay wait: how long to sleep before a record whose stamp is
/// `timestamp`, after `slept` has already been slept — the remainder of the
/// record's clamped offset, and nothing when that offset has already passed.
pub fn pacing_step(timestamp: u64, start_time: u64, slept: u64) -> (d: u64)
    ensures
        slept + d == if clamp_delta(timestamp, start_time) > slept {
            clamp_delta(timestamp, start_time)
        } else {
            slept as nat
        },
{
    if timestamp > start_time {
        let delta = timestamp - start_time;
        if delta > slept {
            delta - slept
        } else {
            0
        }
    } else {
        0
    }
}

/// The paced-replay waits for a whole document: `sleeps[i]` is how long to
/// sleep immediately before processing record `i`, so that the total slept
/// before record `i` is processed is the running maximum of the clamped
/// offsets through record `i`.
pub fn pacing_schedule(timestamps: &Vec<u64>, start_time: u64) -> (sleeps: Vec<u64>)
    ensures
        sleeps@.len() == timestamps@.len(),
        forall|k: int|
            0 <= k < timestamps@.len() ==> slept_after(timestamps@, start_time, k) + #[trigger] (
            sleeps@[k] as nat) == slept_after(timestamps@, start_time, k + 1),
{
    let n = timestamps.len();
    let mut sleeps: Vec<u64> = Vec::new();
    let mut slept: u64 = 0;
    let mut i: usize = 0;
    while i < n
        invariant
            i <= n == timestamps@.len(),
            sleeps@.len() == i,
            slept as nat == slept_after(timestamps@, start_time, i as int),
            forall|k: int|
                0 <= k < i ==> slept_after(timestamps@, start_time, k) + #[trigger] (
                sleeps@[k] as nat) == slept_after(timestamps@, start_time, k + 1),
        decreases n - i,
    {
        let d = pacing_step(timestamps[i], start_time, slept);
        sleeps.push(d);
        slept = slept + d;
        i = i + 1;
    }
    sleeps
}

/// Real-time pacing: for a document whose stamps never precede the anchor
/// and never decrease, the total slept when record `i` is processed is
/// exactly that record's own offset from the anchor — so no record is
/// processed before its own offset, nor before its distance from the first
/// record's stamp, has elapsed.
pub proof fn lemma_real_time_pacing(ts: Seq<u64>, start: u64, i: int)
    requires
        0 <= i < ts.len(),
        forall|j: int| 0 <= j < ts.len() ==> #[trigger] ts[j] >= start,
        forall|j: int, k: int| 0 <= j <= k < ts.len() ==> #[trigger] ts[j] <= #[trigger] ts[k],
    ensures
        slept_after(ts, start, i + 1) == (ts[i] - start) as nat,
        slept_after(ts, start, i + 1) >= ts[i] - ts[0],
    decreases i,
{
    assert(ts[i] >= start);
    assert(ts[0] >= start);
    assert(ts[0] <= ts[i]);
    if i > 0 {
        lemma_real_time_pacing(ts, start, i - 1);
        assert(ts[i - 1] <= ts[i]);
    }
}

} // verus!
