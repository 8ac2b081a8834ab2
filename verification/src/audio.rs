//! Choices made about audio input: devices, stream configurations, channels, samples.
use vstd::prelude::*;

use crate::lookup::{first_index, lemma_scan_finds_first, named};
use crate::ring::{try_pop_sample, try_push_sample};
pub use crate::ring::{sample_ring, SampleFeed, SampleQueue};

verus! {

/// What the picker shows of an input device.
#[derive(Debug, Clone)]
pub struct DeviceInfo {
    pub name: String,
    pub max_input_channels: u16,
}


/// The first device called `name`, taken out of `list`.
pub fn take_device_named<D>(list: Vec<(D, DeviceInfo)>, name: &str) -> (r: Option<(D, DeviceInfo)>)
    ensures
        ({
            let f = first_index(list@, named::<D>(name@));
            match r {
                Some(d) => f >= 0 && d == list@[f],
                None => f < 0,
            }
        }),
{
    let ghost all = list@;
    let ghost p = named::<D>(name@);
    let mut devices = list;
    let target = String::from_str(name);
    let mut i: usize = 0;
    while i < devices.len()
        invariant
            devices@ == all,
            all == list@,
            p == named::<D>(name@),
            target@ == name@,
            i <= all.len(),
            forall|j: int| 0 <= j < i ==> !p(#[trigger] all[j]),
        decreases all.len() - i,
    {
        if devices[i].1.name == target {
            proof {
                lemma_scan_finds_first(all, p, i as int);
            }
            let d = devices.swap_remove(i);
            return Some(d);
        }
        i += 1;
    }
    proof {
        lemma_scan_finds_first(all, p, i as int);
    }
    None
}

/// One range of stream configurations that a device supports, as the choice reads it.
#[derive(Debug, Clone, Copy, PartialEq, Eq, Structural)]
pub struct ConfigRange {
    pub channels: u16,
    /// Whether the samples are 32-bit floats.
    pub is_f32: bool,
    pub min_sample_rate: u32,
    pub max_sample_rate: u32,
}

/// The range chosen and the sample rate to open it at.
#[derive(Debug, Clone, Copy, PartialEq, Eq, Structural)]
pub struct ConfigChoice {
    pub index: usize,
    pub sample_rate: u32,
}

/// Why no capture can be set up.
#[derive(Debug, Clone, Copy, PartialEq, Eq, Structural)]
pub enum CaptureError {
    /// No range offers float samples with at least this many channels.
    NoF32Config { required_channels: u16 },
    /// The chosen configuration has fewer channels than the index asks for.
    ChannelOutOfRange { channel_index: u16, channels: u16 },
}

/// How to open a capture stream and which channel to keep.
#[derive(Debug, Clone, Copy, PartialEq, Eq, Structural)]
pub struct CapturePlan {
    pub range_index: usize,
    pub sample_rate: u32,
    pub channels: u16,
    pub channel_index: u16,
}

pub open spec fn covers(r: ConfigRange, rate: u32) -> bool {
    r.min_sample_rate <= rate && r.max_sample_rate >= rate
}

/// A range that can deliver float samples on `required` channels.
pub open spec fn eligible(r: ConfigRange, required: u16) -> bool {
    r.channels >= required && r.is_f32
}

pub open spec fn eligible_48k(r: ConfigRange, required: u16) -> bool {
    eligible(r, required) && covers(r, 48_000)
}

pub open spec fn eligible_44k(r: ConfigRange, required: u16) -> bool {
    eligible(r, required) && covers(r, 44_100)
}

/// The range to use: the first eligible one that offers 48 kHz; failing that the last
/// eligible one that offers 44.1 kHz; failing that the first eligible one.
pub open spec fn is_config_choice(ranges: Seq<ConfigRange>, required: u16, k: int) -> bool {
    &&& 0 <= k < ranges.len()
    &&& if exists|j: int| 0 <= j < ranges.len() && eligible_48k(#[trigger] ranges[j], required) {
        eligible_48k(ranges[k], required)
            && forall|j: int| 0 <= j < k ==> !eligible_48k(#[trigger] ranges[j], required)
    } else if exists|j: int| 0 <= j < ranges.len() && eligible_44k(#[trigger] ranges[j], required) {
        eligible_44k(ranges[k], required)
            && forall|j: int| k < j < ranges.len() ==> !eligible_44k(#[trigger] ranges[j], required)
    } else {
        eligible(ranges[k], required)
            && forall|j: int| 0 <= j < k ==> !eligible(#[trigger] ranges[j], required)
    }
}

/// At most one range meets the choice rule, so the rule fixes the choice.
pub proof fn lemma_config_choice_unique(ranges: Seq<ConfigRange>, required: u16, k1: int, k2: int)
    requires
        is_config_choice(ranges, required, k1),
        is_config_choice(ranges, required, k2),
    ensures
        k1 == k2,
{
    if k1 < k2 {
        assert(ranges[k1] == ranges[k1]);
    } else if k2 < k1 {
        assert(ranges[k2] == ranges[k2]);
    }
}

/// A choice exists exactly when some range is eligible.
pub proof fn lemma_config_choice_exists(ranges: Seq<ConfigRange>, required: u16, k: int)
    requires
        is_config_choice(ranges, required, k),
    ensures
        any_eligible(ranges, required),
{
    assert(eligible(ranges[k], required));
}

/// Whether some range is eligible.
pub open spec fn any_eligible(ranges: Seq<ConfigRange>, required: u16) -> bool {
    exists|j: int| 0 <= j < ranges.len() && eligible(#[trigger] ranges[j], required)
}

/// The rate to open a range at: 48 kHz, else 44.1 kHz, else its highest rate.
pub open spec fn target_rate(r: ConfigRange) -> u32 {
    if covers(r, 48_000) { 48_000 } else if covers(r, 44_100) { 44_100 } else { r.max_sample_rate }
}

/// Chooses among a device's supported input ranges the one to capture float samples
/// from with at least `required_channels` channels, and the rate to open it at.
pub fn pick_f32_config(ranges: &Vec<ConfigRange>, required_channels: u16) -> (r: Result<ConfigChoice, CaptureError>)
    ensures
        match r {
            Ok(c) => is_config_choice(ranges@, required_channels, c.index as int)
                && c.sample_rate == target_rate(ranges@[c.index as int]),
            Err(e) => !any_eligible(ranges@, required_channels)
                && e == (CaptureError::NoF32Config { required_channels }),
        },
{
    let mut best: Option<usize> = None;
    let mut i: usize = 0;
    let mut found_48k = false;
    while i < ranges.len() && !found_48k
        invariant
            i <= ranges@.len(),
            !found_48k ==> forall|j: int| 0 <= j < i ==> !eligible_48k(#[trigger] ranges@[j], required_channels),
            found_48k ==> (best matches Some(b) && b < ranges@.len() && eligible_48k(ranges@[b as int], required_channels)
                && forall|j: int| 0 <= j < b ==> !eligible_48k(#[trigger] ranges@[j], required_channels)),
            !found_48k ==> match best {
                None => forall|j: int| 0 <= j < i ==> !eligible(#[trigger] ranges@[j], required_channels),
                Some(b) => b < i && eligible(ranges@[b as int], required_channels) && if exists|j: int|
                    0 <= j < i && eligible_44k(#[trigger] ranges@[j], required_channels) {
                    eligible_44k(ranges@[b as int], required_channels)
                        && forall|j: int| b < j < i ==> !eligible_44k(#[trigger] ranges@[j], required_channels)
                } else {
                    forall|j: int| 0 <= j < b ==> !eligible(#[trigger] ranges@[j], required_channels)
                },
            },
        decreases ranges@.len() - i + (if found_48k { 0int } else { 1int }),
    {
        let range = ranges[i];
        if range.channels >= required_channels && range.is_f32 {
            let prefers_48k = range.min_sample_rate <= 48_000 && range.max_sample_rate >= 48_000;
            let prefers_441 = range.min_sample_rate <= 44_100 && range.max_sample_rate >= 44_100;
            if prefers_48k || prefers_441 || best.is_none() {
                best = Some(i);
                if prefers_48k {
                    found_48k = true;
                }
            }
        }
        if !found_48k {
            i += 1;
        }
    }
    match best {
        None => Err(CaptureError::NoF32Config { required_channels }),
        Some(b) => {
            let range = ranges[b];
            let sample_rate = if range.min_sample_rate <= 48_000 && range.max_sample_rate >= 48_000 {
                48_000
            } else if range.min_sample_rate <= 44_100 && range.max_sample_rate >= 44_100 {
                44_100
            } else {
                range.max_sample_rate
            };
            Ok(ConfigChoice { index: b, sample_rate })
        },
    }
}


/// Settles how to capture channel `channel_index` (counted from 0) of a device whose
/// supported input ranges are `ranges`.
pub fn capture_plan(ranges: &Vec<ConfigRange>, channel_index: u16) -> (r: Result<CapturePlan, CaptureError>)
    requires
        channel_index < u16::MAX,
    ensures
        match r {
            Ok(p) => is_config_choice(ranges@, (channel_index + 1) as u16, p.range_index as int)
                && p.sample_rate == target_rate(ranges@[p.range_index as int])
                && p.channels == ranges@[p.range_index as int].channels
                && p.channel_index == channel_index
                && channel_index < p.channels,
            Err(e) => !any_eligible(ranges@, (channel_index + 1) as u16)
                && e == (CaptureError::NoF32Config { required_channels: (channel_index + 1) as u16 }),
        },
{
    let required_channels = channel_index + 1;
    let choice = pick_f32_config(ranges, required_channels)?;
    let channels = ranges[choice.index].channels;
    if channel_index >= channels {
        return Err(CaptureError::ChannelOutOfRange { channel_index, channels });
    }
    Ok(CapturePlan { range_index: choice.index, sample_rate: choice.sample_rate, channels, channel_index })
}

/// The samples of one channel out of interleaved frames of `channels` samples; a last,
/// incomplete frame is ignored.
pub fn channel_samples<T: Copy>(data: &[T], channels: usize, channel: usize) -> (r: Vec<T>)
    requires
        0 < channels,
        channel < channels,
    ensures
        r@.len() == (data@.len() as int) / (channels as int),
        forall|i: int| 0 <= i < r@.len() ==> r@[i] == data@[i * channels + channel],
{
    let mut out: Vec<T> = Vec::new();
    let mut pos: usize = 0;
    assert(0 * (channels as int) == 0) by (nonlinear_arith);
    while data.len() - pos >= channels
        invariant
            0 < channels,
            channel < channels,
            pos <= data@.len(),
            pos as int == out@.len() * channels,
            forall|i: int| 0 <= i < out@.len() ==> out@[i] == data@[i * channels + channel],
        decreases data@.len() - pos,
    {
        out.push(data[pos + channel]);
        proof {
            let k = out@.len() - 1;
            assert(out@[k] == data@[k * channels + channel]);
            assert((k + 1) * channels == k * channels + channels) by (nonlinear_arith);
        }
        pos = pos + channels;
    }
    proof {
        let k = out@.len() as int;
        let n = data@.len() as int;
        let c = channels as int;
        assert(k == n / c) by (nonlinear_arith)
            requires
                k * c <= n,
                n < k * c + c,
                c > 0,
        ;
    }
    out
}

/// The most channels any configuration of a device offers, or 0 when it lists none.
pub fn max_input_channels(channel_counts: &Vec<u16>) -> (r: u16)
    ensures
        forall|i: int| 0 <= i < channel_counts@.len() ==> channel_counts@[i] <= r,
        channel_counts@.len() == 0 ==> r == 0,
        channel_counts@.len() > 0 ==> channel_counts@.contains(r),
{
    let mut best: u16 = 0;
    let mut i: usize = 0;
    while i < channel_counts.len()
        invariant
            i <= channel_counts@.len(),
            forall|j: int| 0 <= j < i ==> channel_counts@[j] <= best,
            i == 0 ==> best == 0,
            i > 0 ==> channel_counts@.subrange(0, i as int).contains(best),
        decreases channel_counts@.len() - i,
    {
        if i == 0 || channel_counts[i] > best {
            best = channel_counts[i];
        }
        proof {
            let pre = channel_counts@.subrange(0, i as int);
            let post = channel_counts@.subrange(0, i + 1);
            assert(post[i as int] == channel_counts@[i as int]);
            if i > 0 && pre.contains(best) {
                let j = choose|j: int| 0 <= j < pre.len() && pre[j] == best;
                assert(post[j] == best);
            }
        }
        i += 1;
    }
    proof {
        if i > 0 {
            let pre = channel_counts@.subrange(0, i as int);
            let j = choose|j: int| 0 <= j < pre.len() && pre[j] == best;
            assert(channel_counts@[j] == best);
        }
    }
    best
}


/// The samples among `offers` that the buffer took, in order.
pub open spec fn accepted<T>(offers: Seq<(T, bool)>) -> Seq<T>
    decreases offers.len(),
{
    if offers.len() == 0 {
        Seq::empty()
    } else {
        let rest = accepted(offers.drop_last());
        if offers.last().1 { rest.push(offers.last().0) } else { rest }
    }
}

proof fn lemma_accepted_append<T>(a: Seq<(T, bool)>, b: Seq<(T, bool)>)
    ensures
        accepted(a + b) == accepted(a) + accepted(b),
    decreases b.len(),
{
    if b.len() == 0 {
        assert(a + b =~= a);
        assert(accepted(a) + accepted(b) =~= accepted(a));
    } else {
        lemma_accepted_append(a, b.drop_last());
        assert((a + b).drop_last() =~= a + b.drop_last());
        assert((a + b).last() == b.last());
        if b.last().1 {
            assert(accepted(a) + accepted(b) =~= (accepted(a) + accepted(b.drop_last())).push(b.last().0));
        }
    }
}

/// Offers `samples` to the ring buffer one by one, in order, dropping those that find it
/// full; returns how many it took.
pub fn feed_samples<T: Copy>(feed: &mut SampleFeed<T>, samples: &[T]) -> (taken: usize)
    ensures
        ({
            let before = old(feed).offers();
            let after = final(feed).offers();
            let new = after.subrange(before.len() as int, after.len() as int);
            &&& after.len() == before.len() + samples@.len()
            &&& after.subrange(0, before.len() as int) == before
            &&& forall|i: int| 0 <= i < samples@.len() ==> (#[trigger] new[i]).0 == samples@[i]
            &&& taken == accepted(new).len()
            &&& accepted(after) == accepted(before) + accepted(new)
        }),
{
    let ghost before = feed.offers();
    let mut taken: usize = 0;
    let mut i: usize = 0;
    while i < samples.len()
        invariant
            i <= samples@.len(),
            before == old(feed).offers(),
            feed.offers().len() == before.len() + i,
            feed.offers().subrange(0, before.len() as int) == before,
            forall|j: int| 0 <= j < i ==> (#[trigger] feed.offers()[before.len() + j]).0 == samples@[j],
            taken == accepted(feed.offers().subrange(before.len() as int, feed.offers().len() as int)).len(),
            taken <= i,
        decreases samples@.len() - i,
    {
        let sample = samples[i];
        let ghost prev = feed.offers();
        let ok = try_push_sample(feed, sample);
        proof {
            let pn = prev.subrange(before.len() as int, prev.len() as int);
            let nn = feed.offers().subrange(before.len() as int, feed.offers().len() as int);
            assert(nn.drop_last() =~= pn);
            assert(nn.last() == (sample, ok));
            assert(feed.offers().subrange(0, before.len() as int) =~= before);
            assert(feed.offers()[before.len() + i] == (sample, ok));
            assert forall|j: int| 0 <= j < i implies #[trigger] feed.offers()[before.len() + j] == prev[before.len() + j] by {}
        }
        if ok {
            taken += 1;
        }
        i += 1;
    }
    proof {
        let after = feed.offers();
        let new = after.subrange(before.len() as int, after.len() as int);
        assert(after =~= before + new);
        lemma_accepted_append(before, new);
        assert forall|k: int| 0 <= k < samples@.len() implies (#[trigger] new[k]).0 == samples@[k] by {
            assert(new[k] == after[before.len() + k]);
        }
    }
    taken
}

/// Moves queued samples to the end of `dest`, oldest first, until `max` have moved or
/// the queue runs dry; returns how many moved.
pub fn drain_into<T>(consumer: &mut SampleQueue<T>, dest: &mut Vec<T>, max: usize) -> (n: usize)
    ensures
        n <= max,
        final(dest)@.len() == old(dest)@.len() + n,
        final(dest)@.subrange(0, old(dest)@.len() as int) == old(dest)@,
        final(consumer).taken_out() == old(consumer).taken_out()
            + final(dest)@.subrange(old(dest)@.len() as int, final(dest)@.len() as int),
        n < max ==> final(consumer).found_empty(),
        0 < n == max ==> !final(consumer).found_empty(),
        max == 0 ==> final(consumer).found_empty() == old(consumer).found_empty(),
{
    let mut n: usize = 0;
    let ghost start = dest@;
    let ghost out0 = consumer.taken_out();
    while n < max
        invariant
            n <= max,
            start == old(dest)@,
            out0 == old(consumer).taken_out(),
            dest@.len() == start.len() + n,
            dest@.subrange(0, start.len() as int) == start,
            consumer.taken_out() == out0 + dest@.subrange(start.len() as int, dest@.len() as int),
            n > 0 ==> !consumer.found_empty(),
            n == 0 ==> consumer.found_empty() == old(consumer).found_empty(),
        decreases max - n,
    {
        match try_pop_sample(consumer) {
            Some(s) => {
                let ghost prev_dest = dest@;
                dest.push(s);
                proof {
                    assert(dest@.subrange(0, start.len() as int) =~= start);
                    assert(dest@.subrange(start.len() as int, dest@.len() as int) =~= prev_dest.subrange(
                        start.len() as int,
                        prev_dest.len() as int,
                    ).push(s));
                }
                n += 1;
            },
            None => {
                return n;
            },
        }
    }
    n
}

} // verus!
