//! Audio utilities: the bounds and gaps of an adaptive jitter buffer, and the watch on the
//! default output device.

use vstd::prelude::*;

use crate::text;

verus! {

// ---------------------------------------------------------------------------------
// Jitter buffer
// ---------------------------------------------------------------------------------

/// Longest interval between two packets that counts as jitter, in microseconds. A longer one
/// is a gap, as a reconnection leaves it.
pub const MAX_INTERVAL_US: u64 = 1_000_000;

/// Samples in `ms` milliseconds.
pub open spec fn depth_of(sample_rate: u32, channels: u32, ms: int) -> int {
    sample_rate as int * channels as int * ms / 1000
}

/// The target depth of a jitter buffer. The statistics of the arrival times are kept around
/// it: it says which intervals count, and keeps the target between ten and two hundred
/// milliseconds.
#[derive(Debug)]
pub struct AdaptiveJitter {
    last_arrival_us: u64,
    min_depth: u32,
    max_depth: u32,
    target_depth: u32,
    packet_count: u64,
}

impl AdaptiveJitter {
    /// When the last packet arrived; zero before the first one.
    pub closed spec fn last_arrival(&self) -> u64 {
        self.last_arrival_us
    }

    /// Smallest target, in samples.
    pub closed spec fn lowest(&self) -> u32 {
        self.min_depth
    }

    /// Largest target, in samples.
    pub closed spec fn highest(&self) -> u32 {
        self.max_depth
    }

    /// The target, in samples.
    pub closed spec fn depth(&self) -> u32 {
        self.target_depth
    }

    /// Packets seen so far.
    pub closed spec fn packets(&self) -> u64 {
        self.packet_count
    }

    #[verifier::type_invariant]
    spec fn bounds_ordered(&self) -> bool {
        self.min_depth <= self.max_depth
    }

    /// A buffer whose target starts at `initial_ms` milliseconds.
    pub fn new(sample_rate: u32, channels: u32, initial_ms: u32) -> (j: AdaptiveJitter)
        requires
            sample_rate as int * channels as int * initial_ms as int <= u32::MAX,
            sample_rate as int * channels as int * 200 <= u32::MAX,
        ensures
            j.last_arrival() == 0,
            j.lowest() == depth_of(sample_rate, channels, 10),
            j.highest() == depth_of(sample_rate, channels, 200),
            j.depth() == depth_of(sample_rate, channels, initial_ms as int),
            j.packets() == 0,
    {
        let per_second: u32 = sample_rate * channels;
        let initial: u32 = per_second * initial_ms / 1000;
        let lowest: u32 = per_second * 10 / 1000;
        let highest: u32 = per_second * 200 / 1000;
        AdaptiveJitter {
            last_arrival_us: 0,
            min_depth: lowest,
            max_depth: highest,
            target_depth: initial,
            packet_count: 0,
        }
    }

    /// A packet arrived. Returns the interval since the last one, if it counts: there is none
    /// for the first packet, and one that is too long is a gap. The target does not change.
    pub fn on_packet(&mut self, now_us: u64) -> (interval: Option<u64>)
        requires
            old(self).packets() < u64::MAX,
        ensures
            final(self).last_arrival() == now_us,
            final(self).packets() == old(self).packets() + 1,
            final(self).lowest() == old(self).lowest(),
            final(self).highest() == old(self).highest(),
            final(self).depth() == old(self).depth(),
            interval == counted_interval(old(self).last_arrival(), now_us),
    {
        proof {
            use_type_invariant(&*self);
        }
        self.packet_count = self.packet_count + 1;
        let last: u64 = self.last_arrival_us;
        self.last_arrival_us = now_us;
        if last == 0 {
            return None;
        }
        let interval: u64 = if now_us >= last {
            now_us - last
        } else {
            0
        };
        if interval > MAX_INTERVAL_US {
            None
        } else {
            Some(interval)
        }
    }

    /// Moves the target to what the statistics ask for, as far as the bounds allow.
    pub fn retarget(&mut self, samples: u32) -> (depth: u32)
        ensures
            depth == bounded(samples, old(self).lowest(), old(self).highest()),
            final(self).depth() == depth,
            final(self).lowest() <= depth <= final(self).highest(),
            final(self).lowest() == old(self).lowest(),
            final(self).highest() == old(self).highest(),
            final(self).last_arrival() == old(self).last_arrival(),
            final(self).packets() == old(self).packets(),
    {
        proof {
            use_type_invariant(&*self);
        }
        let depth: u32 = if samples < self.min_depth {
            self.min_depth
        } else if samples > self.max_depth {
            self.max_depth
        } else {
            samples
        };
        self.target_depth = depth;
        depth
    }

    /// The target, in samples.
    pub fn target(&self) -> (depth: u32)
        ensures
            depth == self.depth(),
    {
        self.target_depth
    }

    /// Packets seen so far.
    pub fn packet_count(&self) -> (n: u64)
        ensures
            n == self.packets(),
    {
        self.packet_count
    }
}

/// The interval between two packets, if it counts. A clock that goes back makes it zero.
pub open spec fn counted_interval(last_us: u64, now_us: u64) -> Option<u64> {
    if last_us == 0 {
        None
    } else if now_us < last_us {
        Some(0)
    } else if now_us - last_us > MAX_INTERVAL_US {
        None
    } else {
        Some((now_us - last_us) as u64)
    }
}

/// A number brought between two bounds.
pub open spec fn bounded(n: u32, lowest: u32, highest: u32) -> u32 {
    if n < lowest {
        lowest
    } else if n > highest {
        highest
    } else {
        n
    }
}

// ---------------------------------------------------------------------------------
// Output device
// ---------------------------------------------------------------------------------

/// A look at the device that finds `current` reports a change.
pub open spec fn device_changed(last: Seq<char>, current: Seq<char>) -> bool {
    current != last && current.len() > 0
}

/// A change is reported once: the next look at the same device reports nothing.
pub proof fn law_change_reported_once(last: Seq<char>, current: Seq<char>)
    ensures
        device_changed(last, current) ==> !device_changed(current, current),
{
}

/// Watches the default output device. It is asked for its name from time to time; an empty
/// name stands for no device.
#[derive(Debug)]
pub struct DeviceMonitor {
    last_device_name: String,
    changed: bool,
}

impl DeviceMonitor {
    /// The name that was seen last.
    pub closed spec fn last_name(&self) -> Seq<char> {
        self.last_device_name@
    }

    /// A change was seen and not taken note of yet.
    pub closed spec fn pending(&self) -> bool {
        self.changed
    }

    /// A watch that starts with the current device.
    pub fn new(current: String) -> (m: DeviceMonitor)
        ensures
            m.last_name() == current@,
            !m.pending(),
    {
        DeviceMonitor { last_device_name: current, changed: false }
    }

    /// Says whether the device changed since the last look. That there is none for now is no
    /// change.
    pub fn check(&mut self, current: String) -> (r: bool)
        ensures
            r == device_changed(old(self).last_name(), current@),
            final(self).last_name() == (if r {
                current@
            } else {
                old(self).last_name()
            }),
            final(self).pending() == (r || old(self).pending()),
    {
        let same: bool = text::str_equal(current.as_str(), self.last_device_name.as_str());
        if !same && !current.as_str().is_empty() {
            self.last_device_name = current;
            self.changed = true;
            true
        } else {
            false
        }
    }

    /// Whether a change was seen and not taken note of yet.
    pub fn changed(&self) -> (b: bool)
        ensures
            b == self.pending(),
    {
        self.changed
    }

    /// Takes note of a change.
    pub fn take_changed(&mut self) -> (was: bool)
        ensures
            was == old(self).pending(),
            !final(self).pending(),
            final(self).last_name() == old(self).last_name(),
    {
        let was: bool = self.changed;
        self.changed = false;
        was
    }
}

/// A depth in samples is as many as fit into the time.
pub proof fn law_depth(sample_rate: u32, channels: u32, ms: int)
    ensures
        1000 * depth_of(sample_rate, channels, ms) <= sample_rate * channels * ms,
        sample_rate * channels * ms < 1000 * (depth_of(sample_rate, channels, ms) + 1),
{
}

/// The interval of two packets is the time between them, as long as a second at most; a
/// clock that goes back counts as no time, and the first packet has no interval.
pub proof fn law_interval(last_us: u64, now_us: u64, d: u64)
    ensures
        counted_interval(0, now_us) is None,
        last_us > 0 && now_us == last_us + d && d <= 1_000_000 ==> counted_interval(last_us, now_us)
            == Some(d),
        last_us > 0 && now_us == last_us + d && d > 1_000_000 ==> counted_interval(last_us, now_us)
            is None,
        last_us > 0 && now_us < last_us ==> counted_interval(last_us, now_us) == Some(0u64),
{
}

/// A number brought between two bounds is the one between them that is nearest to it.
pub proof fn law_bounded(n: u32, lowest: u32, highest: u32, other: u32)
    requires
        lowest <= other <= highest,
    ensures
        lowest <= bounded(n, lowest, highest) <= highest,
        lowest <= n <= highest ==> bounded(n, lowest, highest) == n,
        n <= bounded(n, lowest, highest) ==> bounded(n, lowest, highest) - n <= other - n || other
            < n,
        n >= bounded(n, lowest, highest) ==> n - bounded(n, lowest, highest) <= n - other || other
            > n,
        n < lowest ==> bounded(n, lowest, highest) == lowest,
        n > highest ==> bounded(n, lowest, highest) == highest,
{
}

/// A device that has a name is a change exactly if it is not the one that was seen last; that
/// there is none is no change.
pub proof fn law_device_change(last: Seq<char>, current: Seq<char>)
    ensures
        current.len() > 0 ==> (device_changed(last, current) <==> current != last),
        current.len() == 0 ==> !device_changed(last, current),
{
}

} // verus!
