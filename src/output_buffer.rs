use crate::android_audio::{is_plausible_duration, spec_pkt_duration, Settings};
use crate::pkt_decoder::Pkt;
use crate::window_avg_calc::{window_after_push, WindowAvgCalc};
use std::collections::VecDeque;
use vstd::math::{max, min};
use vstd::prelude::*;

verus! {

/// Frames that must arrive after the buffer ran dry before normal reads resume.
pub const JITTER_BUFFER_LEN: usize = 3;
/// Frames over which the queueing delay is averaged.
pub const AVG_OVER: usize = 25;
/// The step of one explicit delay change, in microseconds.
pub const DELAY_CHANGE_US: u64 = 50_000;

/// What a frame holds, as the buffer's contracts speak of it.
pub struct FrameView {
    pub cnt: u32,
    /// The payload; `None` for a placeholder of a packet that never arrived.
    pub payload: Option<Seq<u8>>,
    /// When the frame was stored, in microseconds of a monotonic clock.
    pub created: u64,
}

/// A placeholder for each of `n` sequence numbers from `lo` on.
pub open spec fn placeholders(lo: int, n: nat, now: u64) -> Seq<FrameView> {
    Seq::new(n, |i: int| FrameView { cnt: (lo + i) as u32, payload: None, created: now })
}

/// The queue after a frame `f` arrives at time `now`, where `taken` is the
/// number of the last frame taken off the front: a frame numbered no higher
/// than that, or below the front, is dropped; past the back it is appended,
/// with a placeholder for each number skipped; inside, a real frame takes
/// the place of a placeholder and anything else is ignored.
pub open spec fn queue_after_write(
    q: Seq<FrameView>,
    f: FrameView,
    now: u64,
    taken: Option<u32>,
) -> Seq<FrameView> {
    if taken is Some && f.cnt <= taken->0 {
        q
    } else if q.len() == 0 {
        seq![f]
    } else if q.last().cnt < f.cnt {
        q + placeholders(q.last().cnt + 1, (f.cnt - q.last().cnt - 1) as nat, now) + seq![f]
    } else if f.cnt < q[0].cnt || f.payload is None {
        q
    } else if q[f.cnt - q[0].cnt].payload is None {
        q.update(f.cnt - q[0].cnt, f)
    } else {
        q
    }
}

/// Each frame of `q` carries the number after that of the one before it.
pub open spec fn is_gapless(q: Seq<FrameView>) -> bool {
    forall|i: int| 0 <= i < q.len() ==> #[trigger] q[i].cnt == q[0].cnt + i
}

/// What `write` asks of the caller.
#[derive(Debug, PartialEq, Eq, Structural, Clone, Copy)]
pub enum PostWriteAction {
    Nothing,
    /// Read once now: the first packet arrived, and playback can be primed
    /// without waiting for the sink to ask.
    Read,
}

/// One stored packet and the time it was stored.
pub struct Frame {
    data: Pkt<'static>,
    created: u64,
}

impl View for Frame {
    type V = FrameView;

    closed spec fn view(&self) -> FrameView {
        FrameView { cnt: self.data.cnt, payload: self.data.payload(), created: self.created }
    }
}

impl Frame {
    /// A real frame with an empty payload, ready to be filled.
    pub fn new(now: u64) -> (r: Self)
        ensures
            r@ == (FrameView { cnt: 0, payload: Some(Seq::empty()), created: now }),
    {
        Frame { data: Pkt::new_owner(0), created: now }
    }

    /// A placeholder for the packet numbered `cnt`.
    pub fn new_empty(cnt: u32, now: u64) -> (r: Self)
        ensures
            r@ == (FrameView { cnt, payload: None, created: now }),
    {
        Frame { data: Pkt::new_empty(cnt), created: now }
    }

    pub fn is_empty(&self) -> (r: bool)
        ensures
            r == (self@.payload is None),
    {
        self.data.is_empty()
    }

    pub fn get_cnt(&self) -> (r: u32)
        ensures
            r == self@.cnt,
    {
        self.data.cnt
    }

    /// Takes the number and payload of a real packet `from`, received at `now`.
    pub fn copy_from_pkt(&mut self, from: &Pkt, now: u64)
        requires
            from.payload() is Some,
        ensures
            final(self)@ == (FrameView { cnt: from.cnt, payload: from.payload(), created: now }),
    {
        self.data.copy_from(from);
        self.created = now;
    }

    /// Copies the payload into `to`; false for a placeholder, which leaves `to` as it was.
    pub fn copy_to_vec(&self, to: &mut Vec<u8>) -> (r: bool)
        ensures
            r == (self@.payload is Some),
            r ==> final(to)@ == self@.payload->0,
            !r ==> final(to)@ == old(to)@,
    {
        self.data.copy_to_vec(to)
    }

    pub fn len(&self) -> (r: usize)
        ensures
            r as int == match self@.payload {
                Some(b) => b.len() as int,
                None => 0int,
            },
    {
        self.data.len()
    }

    /// Microseconds from storing the frame until `now`; zero if `now` is earlier.
    pub fn elapsed(&self, now: u64) -> (r: u64)
        ensures
            r == elapsed_between(self@.created, now),
    {
        now.saturating_sub(self.created)
    }
}

pub open spec fn elapsed_between(created: u64, now: u64) -> u64 {
    if now >= created {
        (now - created) as u64
    } else {
        0
    }
}

/// The jitter buffer: reorders packets by sequence number, fills gaps with
/// placeholders, holds back playback after running dry, and measures how
/// long frames wait before they are played.
pub struct OutputBuffer {
    to_send: VecDeque<Frame>,
    free: Vec<Frame>,
    last_played: Option<Frame>,
    /// The packets to wait for before playing again.
    que_packets: usize,
    is_first_packet: bool,
    avg_to_send_delay: WindowAvgCalc,
    settings: Settings,
    frame_duration: Option<u64>,
    total_missing: usize,
    fixed_delay: Option<u64>,
    /// The number of the last frame taken off the front of the queue.
    last_taken: Option<u32>,
}

impl OutputBuffer {
    /// The queued frames, front first.
    pub closed spec fn queue(&self) -> Seq<FrameView> {
        self.to_send@.map_values(|f: Frame| f@)
    }

    /// The frame played last, kept to be repeated when nothing new can play.
    pub closed spec fn last_played(&self) -> Option<FrameView> {
        match &self.last_played {
            Some(f) => Some(f@),
            None => None,
        }
    }

    /// Writes still to come before normal reads resume.
    pub closed spec fn hold_count(&self) -> nat {
        self.que_packets as nat
    }

    /// Frames kept for reuse by later writes.
    pub closed spec fn pool(&self) -> Seq<FrameView> {
        self.free@.map_values(|f: Frame| f@)
    }

    /// The number of the last frame taken off the front of the queue, by a
    /// read or by `decrease_delay`; frames numbered no higher are dropped.
    pub closed spec fn last_taken(&self) -> Option<u32> {
        self.last_taken
    }

    /// True until the first write.
    pub closed spec fn first_packet_pending(&self) -> bool {
        self.is_first_packet
    }

    /// Placeholders read so far.
    pub closed spec fn missing(&self) -> nat {
        self.total_missing as nat
    }

    /// Playout duration of one decoded frame, once learned, in microseconds.
    pub closed spec fn frame_duration(&self) -> Option<u64> {
        self.frame_duration
    }

    pub closed spec fn delay_avg(&self) -> WindowAvgCalc {
        self.avg_to_send_delay
    }

    /// The delay pinned by `fix_delay_at`, if any.
    pub closed spec fn fixed_delay(&self) -> Option<u64> {
        self.fixed_delay
    }

    pub closed spec fn settings(&self) -> Settings {
        self.settings
    }

    pub closed spec fn wf(&self) -> bool {
        &&& self.avg_to_send_delay.wf()
        &&& self.avg_to_send_delay.capacity() == AVG_OVER
        &&& is_gapless(self.queue())
        &&& self.last_played() matches Some(f) ==> f.payload is Some
        &&& self.frame_duration matches Some(d) ==> is_plausible_duration(d as int)
        &&& self.queue().len() > 0 ==> !self.is_first_packet
        &&& self.last_taken is Some ==> !self.is_first_packet
        &&& self.last_taken is Some && self.queue().len() > 0 ==> self.queue()[0].cnt
            > self.last_taken->0
    }

    /// The queue, the pool, the frames played and taken last, the hold and
    /// miss counters and the settings are those of `other`.
    pub open spec fn same_stream_state(&self, other: Self) -> bool {
        &&& self.queue() == other.queue()
        &&& self.pool() == other.pool()
        &&& self.last_taken() == other.last_taken()
        &&& self.last_played() == other.last_played()
        &&& self.hold_count() == other.hold_count()
        &&& self.first_packet_pending() == other.first_packet_pending()
        &&& self.missing() == other.missing()
        &&& self.settings() == other.settings()
    }

    /// The delay that `get_avg_delay` reports, in microseconds.
    pub open spec fn spec_avg_delay(&self) -> int {
        match self.fixed_delay() {
            Some(d) => d as int,
            None => self.delay_avg().spec_avg(),
        }
    }

    pub fn new(settings: Settings) -> (r: Self)
        ensures
            r.wf(),
            r.queue() == Seq::<FrameView>::empty(),
            r.pool() == Seq::<FrameView>::empty(),
            r.last_taken() is None,
            r.last_played() is None,
            r.hold_count() == 0,
            r.first_packet_pending(),
            r.missing() == 0,
            r.frame_duration() is None,
            r.delay_avg().samples() == Seq::<u64>::empty(),
            r.delay_avg().forced() is None,
            r.fixed_delay() is None,
            r.settings() == settings,
            r.spec_avg_delay() == 0,
    {
        let avg = WindowAvgCalc::new(AVG_OVER).unwrap();
        let r = OutputBuffer {
            to_send: VecDeque::new(),
            free: Vec::new(),
            last_played: None,
            que_packets: 0,
            is_first_packet: true,
            avg_to_send_delay: avg,
            settings,
            frame_duration: None,
            total_missing: 0,
            fixed_delay: None,
            last_taken: None,
        };
        assert(r.queue() =~= Seq::<FrameView>::empty());
        assert(r.pool() =~= Seq::<FrameView>::empty());
        r
    }

    /// Stores `pkt`, received at `now`, in its place in the queue, and says
    /// whether the caller should read at once: only for the first packet
    /// ever written. A real packet is copied into a frame from the pool
    /// where it has one.
    pub fn write(&mut self, pkt: &Pkt, now: u64) -> (r: PostWriteAction)
        requires
            old(self).wf(),
        ensures
            final(self).wf(),
            final(self).queue() == queue_after_write(
                old(self).queue(),
                FrameView { cnt: pkt.cnt, payload: pkt.payload(), created: now },
                now,
                old(self).last_taken(),
            ),
            final(self).pool() == if pkt.payload() is Some && old(self).pool().len() > 0 {
                old(self).pool().drop_last()
            } else {
                old(self).pool()
            },
            final(self).last_taken() == old(self).last_taken(),
            (r == PostWriteAction::Read) == old(self).first_packet_pending(),
            !final(self).first_packet_pending(),
            final(self).hold_count() == if old(self).first_packet_pending() || old(self).hold_count() == 0 {
                old(self).hold_count()
            } else {
                (old(self).hold_count() - 1) as nat
            },
            final(self).last_played() == old(self).last_played(),
            final(self).missing() == old(self).missing(),
            final(self).frame_duration() == old(self).frame_duration(),
            final(self).delay_avg() == old(self).delay_avg(),
            final(self).fixed_delay() == old(self).fixed_delay(),
            final(self).settings() == old(self).settings(),
    {
        let action = self.choose_post_write_action();
        let block = if pkt.is_empty() {
            Frame::new_empty(pkt.cnt, now)
        } else {
            let ghost before = self.free@;
            let mut block = match self.free.pop() {
                Some(block) => block,
                None => Frame::new(now),
            };
            proof {
                if before.len() > 0 {
                    assert(self.pool() =~= before.map_values(|f: Frame| f@).drop_last());
                }
            }
            block.copy_from_pkt(pkt, now);
            block
        };
        self.add_block(block, now);
        action
    }

    fn add_block(&mut self, block: Frame, now: u64)
        requires
            old(self).wf(),
            !old(self).is_first_packet,
        ensures
            final(self).wf(),
            final(self).queue() == queue_after_write(
                old(self).queue(),
                block@,
                now,
                old(self).last_taken,
            ),
            final(self).free == old(self).free,
            final(self).last_taken == old(self).last_taken,
            final(self).que_packets == old(self).que_packets,
            final(self).is_first_packet == old(self).is_first_packet,
            final(self).last_played() == old(self).last_played(),
            final(self).total_missing == old(self).total_missing,
            final(self).frame_duration == old(self).frame_duration,
            final(self).avg_to_send_delay == old(self).avg_to_send_delay,
            final(self).fixed_delay == old(self).fixed_delay,
            final(self).settings == old(self).settings,
    {
        let ghost q = self.queue();
        let new_cnt = block.get_cnt();
        match self.last_taken {
            Some(t) => {
                if new_cnt <= t {
                    return;
                }
            },
            None => {},
        }
        let len = self.to_send.len();
        if len == 0 {
            self.to_send.push_back(block);
            assert(self.queue() =~= seq![block@]);
            return;
        }
        let first_cnt = self.to_send[0].get_cnt();
        let last_cnt = self.to_send[len - 1].get_cnt();
        proof {
            assert(q[0] == self.to_send@[0]@);
            assert(q.last() == self.to_send@[len - 1]@);
        }
        if last_cnt < new_cnt {
            self.append_block(block, last_cnt, now);
            return;
        } else if new_cnt < first_cnt {
            return;
        } else if block.is_empty() {
            return;
        }
        let idx = (new_cnt - first_cnt) as usize;
        proof {
            assert(q[len - 1].cnt == q[0].cnt + len - 1);
            assert(idx < len);
            assert(q[idx as int] == self.to_send@[idx as int]@);
        }
        if self.to_send[idx].is_empty() {
            let ghost before = self.to_send@;
            let _ = self.to_send.remove(idx);
            self.to_send.insert(idx, block);
            proof {
                assert(self.to_send@ =~= before.update(idx as int, block));
                assert(self.queue() =~= q.update(idx as int, block@));
                assert forall|i: int| 0 <= i < self.queue().len() implies #[trigger] self.queue()[i].cnt
                    == self.queue()[0].cnt + i by {
                    assert(q[i].cnt == q[0].cnt + i);
                }
            }
        }
    }

    fn append_block(&mut self, block: Frame, last_cnt: u32, now: u64)
        requires
            old(self).wf(),
            old(self).queue().len() > 0,
            last_cnt == old(self).queue().last().cnt,
            last_cnt < block@.cnt,
        ensures
            final(self).wf(),
            final(self).queue() == old(self).queue() + placeholders(
                last_cnt + 1,
                (block@.cnt - last_cnt - 1) as nat,
                now,
            ) + seq![block@],
            final(self).free == old(self).free,
            final(self).last_taken == old(self).last_taken,
            final(self).que_packets == old(self).que_packets,
            final(self).is_first_packet == old(self).is_first_packet,
            final(self).last_played() == old(self).last_played(),
            final(self).total_missing == old(self).total_missing,
            final(self).frame_duration == old(self).frame_duration,
            final(self).avg_to_send_delay == old(self).avg_to_send_delay,
            final(self).fixed_delay == old(self).fixed_delay,
            final(self).settings == old(self).settings,
    {
        let ghost q = self.queue();
        let new_cnt = block.get_cnt();
        let mut cnt: u32 = last_cnt + 1;
        while cnt < new_cnt
            invariant
                last_cnt < cnt <= new_cnt,
                new_cnt == block@.cnt,
                q.len() > 0,
                q.last().cnt == last_cnt,
                is_gapless(q),
                self.queue() == q + placeholders(last_cnt + 1, (cnt - last_cnt - 1) as nat, now),
                self.free == old(self).free,
                self.last_taken == old(self).last_taken,
                self.que_packets == old(self).que_packets,
                self.is_first_packet == old(self).is_first_packet,
                self.last_played() == old(self).last_played(),
                self.total_missing == old(self).total_missing,
                self.frame_duration == old(self).frame_duration,
                self.avg_to_send_delay == old(self).avg_to_send_delay,
                self.fixed_delay == old(self).fixed_delay,
                self.settings == old(self).settings,
                self.last_played() matches Some(f) ==> f.payload is Some,
                !self.is_first_packet,
                self.last_taken is Some ==> q[0].cnt > self.last_taken->0,
            decreases new_cnt - cnt,
        {
            let ghost before = self.to_send@;
            let f = Frame::new_empty(cnt, now);
            self.to_send.push_back(f);
            proof {
                assert(self.to_send@ == before.push(f));
                assert(placeholders(last_cnt + 1, (cnt + 1 - last_cnt - 1) as nat, now) =~= placeholders(
                    last_cnt + 1,
                    (cnt - last_cnt - 1) as nat,
                    now,
                ).push(f@));
                assert(self.queue() =~= before.map_values(|f: Frame| f@).push(f@));
            }
            cnt = cnt + 1;
        }
        let ghost before = self.to_send@;
        self.to_send.push_back(block);
        proof {
            assert(self.queue() =~= before.map_values(|f: Frame| f@).push(block@));
            let nq = self.queue();
            let ph = placeholders(last_cnt + 1, (new_cnt - last_cnt - 1) as nat, now);
            assert(nq =~= q + ph + seq![block@]);
            assert(q.last().cnt == q[0].cnt + q.len() - 1);
            assert forall|i: int| 0 <= i < nq.len() implies #[trigger] nq[i].cnt == nq[0].cnt + i by {
                if i < q.len() {
                    assert(q[i].cnt == q[0].cnt + i);
                } else if i < q.len() + ph.len() {
                    assert(nq[i] == ph[i - q.len()]);
                }
            }
        }
    }

    fn choose_post_write_action(&mut self) -> (r: PostWriteAction)
        requires
            old(self).wf(),
        ensures
            final(self).wf(),
            (r == PostWriteAction::Read) == old(self).is_first_packet,
            !final(self).is_first_packet,
            final(self).que_packets == if old(self).is_first_packet || old(self).que_packets == 0 {
                old(self).que_packets
            } else {
                (old(self).que_packets - 1) as usize
            },
            final(self).to_send == old(self).to_send,
            final(self).free == old(self).free,
            final(self).last_taken == old(self).last_taken,
            final(self).last_played == old(self).last_played,
            final(self).total_missing == old(self).total_missing,
            final(self).frame_duration == old(self).frame_duration,
            final(self).avg_to_send_delay == old(self).avg_to_send_delay,
            final(self).fixed_delay == old(self).fixed_delay,
            final(self).settings == old(self).settings,
    {
        if self.is_first_packet {
            self.is_first_packet = false;
            PostWriteAction::Read
        } else if self.que_packets > 0 {
            self.que_packets = self.que_packets - 1;
            PostWriteAction::Nothing
        } else {
            PostWriteAction::Nothing
        }
    }

    /// True when the next read takes a real frame off the front of the queue.
    pub open spec fn reads_fresh(&self) -> bool {
        &&& self.hold_count() == 0
        &&& self.queue().len() > 0
        &&& self.queue()[0].payload is Some
    }

    /// True when the next read takes a placeholder off the front of the queue.
    pub open spec fn reads_placeholder(&self) -> bool {
        &&& self.hold_count() == 0
        &&& self.queue().len() > 0
        &&& self.queue()[0].payload is None
    }

    /// Takes the next frame to play and copies its payload into `to`, which
    /// the caller then decodes. While holding, on a placeholder, and when the
    /// queue is empty, the last played frame is repeated; an empty queue
    /// also starts holding. Returns false when there was nothing to play,
    /// in which case `to` is left as it was. A real frame taken off the queue
    /// becomes the last played one, and the one before it goes to the pool.
    /// Frames come off the queue in increasing order of their numbers.
    pub fn read(&mut self, to: &mut Vec<u8>, now: u64) -> (r: bool)
        requires
            old(self).wf(),
        ensures
            final(self).wf(),
            final(self).frame_duration() == old(self).frame_duration(),
            final(self).fixed_delay() == old(self).fixed_delay(),
            final(self).settings() == old(self).settings(),
            old(self).queue().len() == 0 && old(self).last_played() is None ==> !r && final(to)@
                == old(to)@,
            final(self).first_packet_pending() == old(self).first_packet_pending(),
            old(self).reads_fresh() || old(self).reads_placeholder() ==> {
                &&& final(self).last_taken() == Some(old(self).queue()[0].cnt)
                &&& old(self).last_taken() matches Some(t) ==> old(self).queue()[0].cnt > t
            },
            !(old(self).reads_fresh() || old(self).reads_placeholder()) ==> final(self).last_taken()
                == old(self).last_taken(),
            old(self).reads_fresh() ==> {
                &&& r
                &&& final(to)@ == old(self).queue()[0].payload->0
                &&& final(self).queue() == old(self).queue().drop_first()
                &&& final(self).last_played() == Some(old(self).queue()[0])
                &&& final(self).delay_avg().samples() == window_after_push(
                    old(self).delay_avg().samples(),
                    AVG_OVER as nat,
                    elapsed_between(old(self).queue()[0].created, now),
                )
                &&& final(self).delay_avg().forced() is None
                &&& final(self).hold_count() == old(self).hold_count()
                &&& final(self).missing() == old(self).missing()
                &&& final(self).pool() == match old(self).last_played() {
                    Some(f) => old(self).pool().push(f),
                    None => old(self).pool(),
                }
            },
            !old(self).reads_fresh() ==> {
                &&& r == (old(self).last_played() is Some)
                &&& r ==> final(to)@ == old(self).last_played()->0.payload->0
                &&& !r ==> final(to)@ == old(to)@
                &&& final(self).last_played() == old(self).last_played()
                &&& final(self).delay_avg() == old(self).delay_avg()
                &&& final(self).pool() == old(self).pool()
                &&& final(self).queue() == if old(self).reads_placeholder() {
                    old(self).queue().drop_first()
                } else {
                    old(self).queue()
                }
                &&& final(self).hold_count() == if old(self).hold_count() == 0 && old(
                    self,
                ).queue().len() == 0 {
                    JITTER_BUFFER_LEN as nat
                } else {
                    old(self).hold_count()
                }
                &&& final(self).missing() == if old(self).reads_placeholder() && old(self).missing()
                    < usize::MAX {
                    old(self).missing() + 1
                } else {
                    old(self).missing()
                }
            },
    {
        if self.que_packets > 0 {
            return self.read_last_played_block(to);
        }
        let ghost q = self.queue();
        let ghost before = self.to_send@;
        match self.to_send.pop_front() {
            Some(block) => {
                self.last_taken = Some(block.get_cnt());
                proof {
                    assert(q[0] == block@);
                    assert(self.queue() =~= q.drop_first());
                    if q.len() > 1 {
                        assert(q[1].cnt == q[0].cnt + 1);
                    }
                    assert forall|i: int| 0 <= i < self.queue().len() implies #[trigger] self.queue()[i].cnt
                        == self.queue()[0].cnt + i by {
                        assert(q[i + 1].cnt == q[0].cnt + i + 1);
                        assert(q[1].cnt == q[0].cnt + 1);
                    }
                }
                if block.is_empty() {
                    return self.read_empty_block(&block, to);
                }
                let delay = block.elapsed(now);
                self.avg_to_send_delay.push(delay);
                let _ = block.copy_to_vec(to);
                let ghost pool_before = self.free@;
                match self.last_played.take() {
                    Some(last_played) => {
                        self.free.push(last_played);
                        assert(self.pool() =~= pool_before.map_values(|f: Frame| f@).push(
                            last_played@,
                        ));
                    },
                    None => {},
                }
                self.last_played = Some(block);
                true
            },
            None => {
                self.que_packets = JITTER_BUFFER_LEN;
                self.read_last_played_block(to)
            },
        }
    }

    fn read_empty_block(&mut self, block: &Frame, to: &mut Vec<u8>) -> (r: bool)
        requires
            old(self).wf(),
        ensures
            final(self).wf(),
            r == (old(self).last_played() is Some),
            r ==> final(to)@ == old(self).last_played()->0.payload->0,
            !r ==> final(to)@ == old(to)@,
            final(self).is_first_packet == old(self).is_first_packet,
            final(self).free == old(self).free,
            final(self).last_taken == old(self).last_taken,
            final(self).total_missing == if old(self).total_missing < usize::MAX {
                (old(self).total_missing + 1) as usize
            } else {
                old(self).total_missing
            },
            final(self).to_send == old(self).to_send,
            final(self).last_played == old(self).last_played,
            final(self).que_packets == old(self).que_packets,
            final(self).frame_duration == old(self).frame_duration,
            final(self).avg_to_send_delay == old(self).avg_to_send_delay,
            final(self).fixed_delay == old(self).fixed_delay,
            final(self).settings == old(self).settings,
    {
        self.total_missing = self.total_missing.saturating_add(1);
        self.read_last_played_block(to)
    }

    fn read_last_played_block(&mut self, to: &mut Vec<u8>) -> (r: bool)
        requires
            old(self).wf(),
        ensures
            final(self).wf(),
            r == (old(self).last_played() is Some),
            r ==> final(to)@ == old(self).last_played()->0.payload->0,
            !r ==> final(to)@ == old(to)@,
            final(self).is_first_packet == old(self).is_first_packet,
            final(self).free == old(self).free,
            final(self).last_taken == old(self).last_taken,
            final(self).to_send == old(self).to_send,
            final(self).last_played == old(self).last_played,
            final(self).que_packets == old(self).que_packets,
            final(self).total_missing == old(self).total_missing,
            final(self).frame_duration == old(self).frame_duration,
            final(self).avg_to_send_delay == old(self).avg_to_send_delay,
            final(self).fixed_delay == old(self).fixed_delay,
            final(self).settings == old(self).settings,
    {
        match &self.last_played {
            Some(block) => block.copy_to_vec(to),
            None => false,
        }
    }

    /// The queueing delay reported to the application, in microseconds: the
    /// pinned delay if there is one, else the rolling average.
    pub fn get_avg_delay(&self) -> (r: u64)
        requires
            self.wf(),
        ensures
            r as int == self.spec_avg_delay(),
    {
        match self.fixed_delay {
            Some(d) => d,
            None => self.avg_to_send_delay.get_avg(),
        }
    }

    /// Raises the delay by the whole frames that fit in one delay step:
    /// reads hold for that many more writes, and the reported delay grows by
    /// their duration at once. Does nothing before the frame duration is
    /// known. Returns the new delay.
    pub fn increase_delay(&mut self) -> (r: u64)
        requires
            old(self).wf(),
        ensures
            final(self).wf(),
            old(self).frame_duration() is None ==> {
                &&& r == old(self).spec_avg_delay()
                &&& *final(self) == *old(self)
            },
            old(self).frame_duration() matches Some(fd) ==> {
                let k = (DELAY_CHANGE_US / fd) as int;
                &&& r == min(old(self).spec_avg_delay() + k * fd, u64::MAX as int)
                &&& final(self).hold_count() == min(old(self).hold_count() + k, usize::MAX as int)
                &&& final(self).pool() == old(self).pool()
                &&& final(self).last_taken() == old(self).last_taken()
                &&& final(self).delay_avg().samples() == old(self).delay_avg().samples()
                &&& final(self).delay_avg().forced() == Some(r)
                &&& final(self).fixed_delay() == if old(self).fixed_delay() is Some {
                    Some(r)
                } else {
                    None
                }
                &&& final(self).queue() == old(self).queue()
                &&& final(self).last_played() == old(self).last_played()
                &&& final(self).missing() == old(self).missing()
                &&& final(self).first_packet_pending() == old(self).first_packet_pending()
                &&& final(self).frame_duration() == old(self).frame_duration()
                &&& final(self).settings() == old(self).settings()
            },
            final(self).spec_avg_delay() == r,
    {
        let cur_delay = self.get_avg_delay();
        let frame_duration = match self.frame_duration {
            None => {
                return cur_delay;
            },
            Some(frame_duration) => frame_duration,
        };
        let frames_to_add = DELAY_CHANGE_US / frame_duration;
        proof {
            assert(frames_to_add * frame_duration <= DELAY_CHANGE_US) by (nonlinear_arith)
                requires
                    frames_to_add == DELAY_CHANGE_US / frame_duration,
                    frame_duration > 0,
            ;
        }
        self.que_packets = self.que_packets.saturating_add(frames_to_add as usize);
        let new_delay = cur_delay.saturating_add(frames_to_add * frame_duration);
        self.avg_to_send_delay.set_to(new_delay);
        if self.fixed_delay.is_some() {
            self.fixed_delay = Some(new_delay);
        }
        new_delay
    }

    /// Lowers the delay by dropping, from the front of the queue, the whole
    /// frames that fit in one delay step (no more than are queued); the
    /// reported delay falls by their duration at once, not below zero. Does
    /// nothing before the frame duration is known. Returns the new delay.
    pub fn decrease_delay(&mut self) -> (r: u64)
        requires
            old(self).wf(),
        ensures
            final(self).wf(),
            old(self).frame_duration() is None ==> {
                &&& r == old(self).spec_avg_delay()
                &&& *final(self) == *old(self)
            },
            old(self).frame_duration() matches Some(fd) ==> {
                let k = min((DELAY_CHANGE_US / fd) as int, old(self).queue().len() as int);
                &&& r == max(old(self).spec_avg_delay() - k * fd, 0)
                &&& final(self).queue() == old(self).queue().subrange(k, old(self).queue().len() as int)
                &&& final(self).delay_avg().samples() == old(self).delay_avg().samples()
                &&& final(self).delay_avg().forced() == Some(r)
                &&& final(self).fixed_delay() == if old(self).fixed_delay() is Some {
                    Some(r)
                } else {
                    None
                }
                &&& final(self).last_taken() == if k > 0 {
                    Some(old(self).queue()[k - 1].cnt)
                } else {
                    old(self).last_taken()
                }
                &&& final(self).pool() == old(self).pool()
                &&& final(self).hold_count() == old(self).hold_count()
                &&& final(self).last_played() == old(self).last_played()
                &&& final(self).missing() == old(self).missing()
                &&& final(self).first_packet_pending() == old(self).first_packet_pending()
                &&& final(self).frame_duration() == old(self).frame_duration()
                &&& final(self).settings() == old(self).settings()
            },
            final(self).spec_avg_delay() == r,
    {
        let cur_delay = self.get_avg_delay();
        let frame_duration = match self.frame_duration {
            None => {
                return cur_delay;
            },
            Some(frame_duration) => frame_duration,
        };
        let mut frames_to_remove = DELAY_CHANGE_US / frame_duration;
        proof {
            assert(frames_to_remove * frame_duration <= DELAY_CHANGE_US) by (nonlinear_arith)
                requires
                    frames_to_remove == DELAY_CHANGE_US / frame_duration,
                    frame_duration > 0,
            ;
        }
        let len = self.to_send.len();
        if len < frames_to_remove as usize {
            frames_to_remove = len as u64;
        }
        proof {
            assert(frames_to_remove * frame_duration <= DELAY_CHANGE_US) by (nonlinear_arith)
                requires
                    frames_to_remove <= DELAY_CHANGE_US / frame_duration,
                    (DELAY_CHANGE_US / frame_duration) * frame_duration <= DELAY_CHANGE_US,
                    frame_duration > 0,
            ;
        }
        let ghost q = self.queue();
        let ghost frames = self.to_send@;
        let mut i: usize = 0;
        while i < frames_to_remove as usize
            invariant
                frames_to_remove <= len,
                frames_to_remove * frame_duration <= DELAY_CHANGE_US,
                len == frames.len(),
                q == frames.map_values(|f: Frame| f@),
                is_gapless(q),
                i <= frames_to_remove,
                self.to_send@ == frames.subrange(i as int, len as int),
                self.free == old(self).free,
                self.last_played == old(self).last_played,
                self.que_packets == old(self).que_packets,
                self.is_first_packet == old(self).is_first_packet,
                self.avg_to_send_delay == old(self).avg_to_send_delay,
                self.settings == old(self).settings,
                self.frame_duration == old(self).frame_duration,
                self.total_missing == old(self).total_missing,
                self.fixed_delay == old(self).fixed_delay,
                i > 0 ==> self.last_taken == Some(q[i - 1].cnt),
                i == 0 ==> self.last_taken == old(self).last_taken,
                old(self).last_taken is Some && len > 0 ==> q[0].cnt > old(self).last_taken->0,
                len > 0 ==> !old(self).is_first_packet,
                old(self).last_taken is Some ==> !old(self).is_first_packet,
            decreases frames_to_remove - i,
        {
            let ghost before = self.to_send@;
            match self.to_send.pop_front() {
                Some(f) => {
                    self.last_taken = Some(f.get_cnt());
                    assert(f@ == q[i as int]);
                },
                None => {},
            }
            i = i + 1;
            assert(self.to_send@ =~= frames.subrange(i as int, len as int));
        }
        proof {
            let k = frames_to_remove as int;
            assert(self.queue() =~= q.subrange(k, len as int));
            assert forall|j: int| 0 <= j < self.queue().len() implies #[trigger] self.queue()[j].cnt
                == self.queue()[0].cnt + j by {
                assert(q[j + k].cnt == q[0].cnt + j + k);
                assert(q[k].cnt == q[0].cnt + k);
            }
            if k > 0 && k < len {
                assert(q[k].cnt == q[0].cnt + k);
                assert(q[k - 1].cnt == q[0].cnt + k - 1);
            }
        }
        let new_delay = cur_delay.saturating_sub(frames_to_remove * frame_duration);
        self.avg_to_send_delay.set_to(new_delay);
        if self.fixed_delay.is_some() {
            self.fixed_delay = Some(new_delay);
        }
        new_delay
    }

    /// True while the reported delay is pinned.
    pub fn is_delay_fixed(&self) -> (r: bool)
        ensures
            r == (self.fixed_delay() is Some),
    {
        self.fixed_delay.is_some()
    }

    /// Pins the reported delay at `delay` microseconds, whatever the
    /// measured delay does, until `unfix_delay`.
    pub fn fix_delay_at(&mut self, delay: u64)
        requires
            old(self).wf(),
        ensures
            final(self).wf(),
            final(self).same_stream_state(*old(self)),
            final(self).frame_duration() == old(self).frame_duration(),
            final(self).delay_avg() == old(self).delay_avg(),
            final(self).fixed_delay() == Some(delay),
            final(self).spec_avg_delay() == delay,
    {
        self.fixed_delay = Some(delay);
    }

    /// Lets the reported delay follow the measured delay again.
    pub fn unfix_delay(&mut self)
        requires
            old(self).wf(),
        ensures
            final(self).wf(),
            final(self).same_stream_state(*old(self)),
            final(self).frame_duration() == old(self).frame_duration(),
            final(self).delay_avg() == old(self).delay_avg(),
            final(self).fixed_delay() is None,
            final(self).spec_avg_delay() == final(self).delay_avg().spec_avg(),
    {
        self.fixed_delay = None;
    }

    /// Learns the playout duration of one frame from the length of the
    /// first frame decoded; later calls keep what was learned. Returns false,
    /// learning nothing, when that length gives no plausible frame duration
    /// for this buffer's settings.
    pub fn record_decoded_len(&mut self, bytes: usize) -> (r: bool)
        requires
            old(self).wf(),
        ensures
            final(self).wf(),
            old(self).frame_duration() is Some ==> r && *final(self) == *old(self),
            old(self).frame_duration() is None ==> {
                let d = spec_pkt_duration(old(self).settings(), bytes as nat);
                &&& r == is_plausible_duration(d)
                &&& final(self).frame_duration() == if r {
                    Some(d as u64)
                } else {
                    None
                }
                &&& final(self).same_stream_state(*old(self))
                &&& final(self).delay_avg() == old(self).delay_avg()
                &&& final(self).fixed_delay() == old(self).fixed_delay()
            },
    {
        if self.frame_duration.is_some() {
            return true;
        }
        match self.settings.calc_pkt_duration(bytes) {
            Some(d) => {
                self.frame_duration = Some(d);
                true
            },
            None => false,
        }
    }

    /// The learned playout duration of one frame, in microseconds.
    pub fn get_frame_duration(&self) -> (r: Option<u64>)
        ensures
            r == self.frame_duration(),
    {
        self.frame_duration
    }

    /// How many placeholders have been read.
    pub fn get_total_missing(&self) -> (r: usize)
        ensures
            r == self.missing(),
    {
        self.total_missing
    }

    /// True when the next read takes a real frame off the queue, and so
    /// measures a new queueing delay.
    pub fn next_read_is_fresh(&self) -> (r: bool)
        ensures
            r == self.reads_fresh(),
    {
        if self.que_packets > 0 || self.to_send.len() == 0 {
            return false;
        }
        assert(self.queue()[0] == self.to_send@[0]@);
        !self.to_send[0].is_empty()
    }

    /// How many frames are queued, placeholders included.
    pub fn len(&self) -> (r: usize)
        ensures
            r == self.queue().len(),
    {
        self.to_send.len()
    }
}

/// What a well-formed buffer guarantees of its queue: it is a gapless run of
/// sequence numbers, all above the number of the last frame taken off it,
/// and it holds frames only once the first packet has been written.
pub proof fn lemma_buffer_shape(b: OutputBuffer)
    requires
        b.wf(),
    ensures
        is_gapless(b.queue()),
        b.queue().len() > 0 ==> !b.first_packet_pending(),
        b.last_taken() is Some ==> !b.first_packet_pending(),
        b.last_taken() matches Some(t) ==> forall|i: int|
            0 <= i < b.queue().len() ==> #[trigger] b.queue()[i].cnt > t,
{
    let q = b.queue();
    if b.last_taken() is Some {
        assert forall|i: int| 0 <= i < q.len() implies #[trigger] q[i].cnt > b.last_taken()->0 by {
            assert(q[i].cnt == q[0].cnt + i);
        }
    }
}

/// Writes keep the queue a gapless run of sequence numbers above the last
/// one taken off it: a frame numbered no higher than that is dropped, no
/// frame enters ahead of one already queued, each number stands in the
/// queue once, and a number skipped past the back is queued as a
/// placeholder ahead of the frame that skipped it. Reads take the front and
/// record its number as the last taken (see `read`), so frames are read back
/// in increasing order, each numbered above every one read before it.
pub proof fn lemma_frames_read_in_order(
    q: Seq<FrameView>,
    f: FrameView,
    now: u64,
    taken: Option<u32>,
)
    requires
        is_gapless(q),
        taken is Some && q.len() > 0 ==> q[0].cnt > taken->0,
    ensures
        ({
            let nq = queue_after_write(q, f, now, taken);
            &&& is_gapless(nq)
            &&& taken matches Some(t) ==> forall|i: int| 0 <= i < nq.len() ==> #[trigger] nq[i].cnt > t
            &&& nq.len() >= q.len()
            &&& forall|i: int| 0 <= i < q.len() ==> #[trigger] nq[i].cnt == q[i].cnt
            &&& forall|i: int, j: int|
                0 <= i < nq.len() && 0 <= j < nq.len() && #[trigger] nq[i].cnt == #[trigger] nq[j].cnt
                    ==> i == j
            &&& forall|i: int| 0 <= i < nq.len() ==> nq[0].cnt <= #[trigger] nq[i].cnt
            &&& nq.len() > 1 ==> nq.drop_first()[0].cnt == nq[0].cnt + 1
            &&& q.len() > 0 && q.last().cnt < f.cnt ==> {
                &&& nq.last() == f
                &&& forall|c: int|
                    q.last().cnt < c < f.cnt ==> (#[trigger] nq[c - q[0].cnt]).cnt == c
                        && nq[c - q[0].cnt].payload is None
            }
        }),
{
    let nq = queue_after_write(q, f, now, taken);
    if taken is Some && f.cnt <= taken->0 {
    } else if q.len() == 0 {
        assert(nq =~= seq![f]);
    } else {
        assert(q.last().cnt == q[0].cnt + q.len() - 1);
        if q.last().cnt < f.cnt {
            let ph = placeholders(q.last().cnt + 1, (f.cnt - q.last().cnt - 1) as nat, now);
            assert(nq.len() == q.len() + ph.len() + 1);
            assert forall|i: int| 0 <= i < nq.len() implies #[trigger] nq[i].cnt == nq[0].cnt + i by {
                if i < q.len() {
                    assert(q[i].cnt == q[0].cnt + i);
                } else if i < q.len() + ph.len() {
                    assert(nq[i] == ph[i - q.len()]);
                }
            }
            assert forall|c: int| q.last().cnt < c < f.cnt implies (#[trigger] nq[c
                - q[0].cnt]).cnt == c && nq[c - q[0].cnt].payload is None by {
                assert(nq[c - q[0].cnt] == ph[c - q[0].cnt - q.len()]);
            }
        } else if f.cnt < q[0].cnt || f.payload is None {
        } else if q[f.cnt - q[0].cnt].payload is None {
            assert forall|i: int| 0 <= i < nq.len() implies #[trigger] nq[i].cnt == nq[0].cnt + i by {
                assert(q[i].cnt == q[0].cnt + i);
            }
        }
    }
    assert forall|i: int| 0 <= i < q.len() implies #[trigger] nq[i].cnt == q[i].cnt by {
        assert(q[i].cnt == q[0].cnt + i);
        assert(nq[i].cnt == nq[0].cnt + i);
    }
    assert forall|i: int, j: int|
        0 <= i < nq.len() && 0 <= j < nq.len() && #[trigger] nq[i].cnt == #[trigger] nq[j].cnt implies i
        == j by {
        assert(nq[i].cnt == nq[0].cnt + i);
        assert(nq[j].cnt == nq[0].cnt + j);
    }
    assert forall|i: int| 0 <= i < nq.len() implies nq[0].cnt <= #[trigger] nq[i].cnt by {
        assert(nq[i].cnt == nq[0].cnt + i);
    }
    if taken is Some {
        assert forall|i: int| 0 <= i < nq.len() implies #[trigger] nq[i].cnt > taken->0 by {
            assert(nq[i].cnt == nq[0].cnt + i);
        }
    }
    if nq.len() > 1 {
        assert(nq[1].cnt == nq[0].cnt + 1);
    }
}

/// A real frame for a sequence number whose slot already holds real data
/// leaves the queue as it was.
pub proof fn lemma_duplicate_write_ignored(
    q: Seq<FrameView>,
    f: FrameView,
    now: u64,
    taken: Option<u32>,
)
    requires
        is_gapless(q),
        q.len() > 0,
        q[0].cnt <= f.cnt <= q.last().cnt,
        q[f.cnt - q[0].cnt].payload is Some,
    ensures
        queue_after_write(q, f, now, taken) == q,
{
}

/// A frame numbered below the front of the queue, or no higher than the
/// last frame taken off it, leaves the queue as it was.
pub proof fn lemma_late_write_ignored(q: Seq<FrameView>, f: FrameView, now: u64, taken: Option<u32>)
    requires
        is_gapless(q),
        (q.len() > 0 && f.cnt < q[0].cnt) || (taken is Some && f.cnt <= taken->0),
    ensures
        queue_after_write(q, f, now, taken) == q,
{
    if q.len() > 0 {
        assert(q.last().cnt == q[0].cnt + q.len() - 1);
    }
}

/// One read that takes a placeholder, as `read` promises it: the front
/// leaves the queue, the last played frame stays, and the missing counter
/// grows by one unless it is at its largest value.
#[verifier::opaque]
pub open spec fn placeholder_read_step(before: OutputBuffer, after: OutputBuffer) -> bool {
    &&& before.reads_placeholder()
    &&& after.queue() == before.queue().drop_first()
    &&& after.last_played() == before.last_played()
    &&& after.hold_count() == before.hold_count()
    &&& after.missing() == if before.missing() < usize::MAX {
        before.missing() + 1
    } else {
        before.missing()
    }
}

/// After `n` consecutive reads of placeholders, from a counter with room for
/// them, the missing counter is higher by exactly `n`, the first `n` frames
/// have left the queue, and the last played frame is the same.
pub proof fn lemma_placeholder_reads_count_missing(states: Seq<OutputBuffer>)
    requires
        states.len() > 0,
        states[0].missing() + states.len() - 1 <= usize::MAX,
        forall|i: int|
            0 <= i < states.len() - 1 ==> #[trigger] placeholder_read_step(states[i], states[i + 1]),
    ensures
        states.len() - 1 <= states[0].queue().len(),
        states.last().missing() == states[0].missing() + states.len() - 1,
        states.last().queue() == states[0].queue().subrange(
            states.len() - 1,
            states[0].queue().len() as int,
        ),
        states.last().last_played() == states[0].last_played(),
    decreases states.len(),
{
    if states.len() > 1 {
        let p = states.drop_last();
        assert forall|i: int| 0 <= i < p.len() - 1 implies #[trigger] placeholder_read_step(
            p[i],
            p[i + 1],
        ) by {
            assert(placeholder_read_step(states[i], states[i + 1]));
            assert(p[i] == states[i]);
            assert(p[i + 1] == states[i + 1]);
        }
        lemma_placeholder_reads_count_missing(p);
        let k = states.len() - 2;
        let q0 = states[0].queue();
        assert(states[k] == p.last());
        assert(p[0] == states[0]);
        assert(placeholder_read_step(states[k], states[k + 1]));
        reveal(placeholder_read_step);
        let qk = states[k].queue();
        assert(qk == q0.subrange(k, q0.len() as int));
        assert(qk.len() > 0);
        assert(states[k + 1].queue() == qk.drop_first());
        assert(qk.drop_first() =~= q0.subrange(k + 1, q0.len() as int));
    } else {
        assert(states[0].queue().subrange(0, states[0].queue().len() as int) =~= states[0].queue());
    }
}

/// The whole frames that one delay step holds: at least one frame of any
/// plausible duration, and together no longer than the step. So right
/// after `increase_delay` the reported delay is at least those frames'
/// duration, and at least the full step where the frame duration divides
/// it; `decrease_delay` lowers it by as much, no lower than zero.
pub proof fn lemma_delay_step(fd: u64, old_delay: int)
    requires
        is_plausible_duration(fd as int),
        0 <= old_delay <= u64::MAX,
    ensures
        ({
            let k = (DELAY_CHANGE_US / fd) as int;
            &&& 1 <= k
            &&& k * fd <= DELAY_CHANGE_US < (k + 1) * fd
            &&& min(old_delay + k * fd, u64::MAX as int) >= k * fd
            &&& min(old_delay + k * fd, u64::MAX as int) >= old_delay
            &&& DELAY_CHANGE_US % fd == 0 ==> min(old_delay + k * fd, u64::MAX as int)
                >= DELAY_CHANGE_US
            &&& max(old_delay - k * fd, 0) <= old_delay
        }),
{
    let k = (DELAY_CHANGE_US / fd) as int;
    let d = DELAY_CHANGE_US as int;
    let f = fd as int;
    assert(k * f <= d < (k + 1) * f && 1 <= k) by (nonlinear_arith)
        requires
            k == d / f,
            15000 <= f <= 43000,
            d == 50000,
    ;
    assert(d % f == 0 ==> k * f == d) by (nonlinear_arith)
        requires
            k == d / f,
            f > 0,
    ;
    assert(k * f <= u64::MAX);
}

} // verus!
