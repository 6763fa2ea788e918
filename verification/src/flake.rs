//! Unique 64 bit numbers made of a timestamp, a node id and a sequence
//! number.
//!
//! The lowest 12 bits hold the sequence number, the 10 bits above them the
//! node id, and the rest the milliseconds since [`DEFAULT_EPOCH`].

use vstd::prelude::*;

verus! {

/// 2016-01-01T00:00:00, in seconds since the Unix epoch.
pub const DEFAULT_EPOCH: u64 = 1451602800;

/// The id of this node; there is only one.
pub const NODE_ID: u64 = 1;

/// The largest sequence number.
pub const MAX_SEQUENCE: u64 = 4095;

/// Why no number could be made.
#[derive(Debug, Clone, Copy, PartialEq, Eq, Structural)]
pub enum FlakeError {
    /// The system clock reads a time before [`DEFAULT_EPOCH`].
    ClockBeforeEpoch,
}

/// The number made of `timestamp`, `node` and `sequence`.
pub open spec fn flake_of(timestamp: u64, node: u64, sequence: u64) -> u64 {
    (timestamp << 22u64) | (node << 12u64) | (sequence & 0xFFFu64)
}

/// Milliseconds between [`DEFAULT_EPOCH`] and the time `secs` seconds and
/// `nanos` nanoseconds after the Unix epoch, cut to 64 bits.
pub open spec fn millis_since_epoch(secs: u64, nanos: u32) -> u64 {
    (((secs - DEFAULT_EPOCH) * 1000 + nanos / 1_000_000) % 0x1_0000_0000_0000_0000) as u64
}

/// What [`flake_from_clock`] returns.
pub open spec fn flake_from_clock_spec(secs: u64, nanos: u32, sequence: u64) -> Result<
    u64,
    FlakeError,
> {
    if secs < DEFAULT_EPOCH {
        Err(FlakeError::ClockBeforeEpoch)
    } else {
        Ok(flake_of(millis_since_epoch(secs, nanos), NODE_ID, sequence))
    }
}

/// The sequence number that follows `sequence`.
pub open spec fn next_sequence(sequence: u64) -> u64 {
    if sequence >= MAX_SEQUENCE {
        0
    } else {
        (sequence + 1) as u64
    }
}

/// The sequence number that stands `n` numbers after `sequence`.
pub open spec fn sequence_after(sequence: u64, n: nat) -> u64
    decreases n,
{
    if n == 0 {
        sequence
    } else {
        next_sequence(sequence_after(sequence, (n - 1) as nat))
    }
}

/// Puts the three parts of a number together.
pub fn compose_flake(timestamp: u64, node: u64, sequence: u64) -> (flake: u64)
    ensures
        flake == flake_of(timestamp, node, sequence),
{
    (timestamp << 22u64) | (node << 12u64) | (sequence & 0xFFFu64)
}

/// The milliseconds since [`DEFAULT_EPOCH`] for a clock that reads `secs`
/// seconds and `nanos` nanoseconds since the Unix epoch.
pub fn epoch_timestamp(secs: u64, nanos: u32) -> (r: Result<u64, FlakeError>)
    ensures
        r == if secs < DEFAULT_EPOCH {
            Err::<u64, FlakeError>(FlakeError::ClockBeforeEpoch)
        } else {
            Ok(millis_since_epoch(secs, nanos))
        },
{
    if secs < DEFAULT_EPOCH {
        Err(FlakeError::ClockBeforeEpoch)
    } else {
        let whole: u64 = (secs - DEFAULT_EPOCH).wrapping_mul(1000);
        let part: u64 = (nanos / 1_000_000) as u64;
        let millis: u64 = whole.wrapping_add(part);
        proof {
            lemma_millis(secs, nanos, whole, part, millis);
        }
        Ok(millis)
    }
}

proof fn lemma_millis(secs: u64, nanos: u32, whole: u64, part: u64, millis: u64)
    requires
        secs >= DEFAULT_EPOCH,
        whole == vstd::wrapping::u64_specs::wrapping_mul((secs - DEFAULT_EPOCH) as u64, 1000),
        part == nanos / 1_000_000,
        millis == vstd::wrapping::u64_specs::wrapping_add(whole, part),
    ensures
        millis == millis_since_epoch(secs, nanos),
{
    let m: int = 0x1_0000_0000_0000_0000;
    let a: int = (secs - DEFAULT_EPOCH) * 1000;
    assert(whole == a % m);
    vstd::arithmetic::div_mod::lemma_add_mod_noop(a, part as int, m);
    vstd::arithmetic::div_mod::lemma_small_mod(part as nat, m as nat);
    vstd::arithmetic::div_mod::lemma_mod_twice(a, m);
}

/// The number for a clock reading and a sequence number: the clock's
/// milliseconds since [`DEFAULT_EPOCH`], [`NODE_ID`] and `sequence`.
pub fn flake_from_clock(secs: u64, nanos: u32, sequence: u64) -> (r: Result<u64, FlakeError>)
    ensures
        r == flake_from_clock_spec(secs, nanos, sequence),
{
    match epoch_timestamp(secs, nanos) {
        Ok(timestamp) => Ok(compose_flake(timestamp, NODE_ID, sequence)),
        Err(e) => Err(e),
    }
}

/// Two numbers made of different sequence numbers, or of different
/// timestamps that fit their 42 bits, differ.
pub proof fn lemma_flakes_differ(t1: u64, s1: u64, t2: u64, s2: u64)
    requires
        s1 <= MAX_SEQUENCE,
        s2 <= MAX_SEQUENCE,
        t1 < 0x400_0000_0000,
        t2 < 0x400_0000_0000,
        t1 != t2 || s1 != s2,
    ensures
        flake_of(t1, NODE_ID, s1) != flake_of(t2, NODE_ID, s2),
{
    assert(s1 <= 4095 && s2 <= 4095 && t1 < 0x400_0000_0000 && t2 < 0x400_0000_0000 && (t1 != t2
        || s1 != s2) ==> ((t1 << 22u64) | (1u64 << 12u64) | (s1 & 0xFFFu64)) != ((t2 << 22u64) | (
    1u64 << 12u64) | (s2 & 0xFFFu64))) by (bit_vector);
}

/// `std::time::SystemTime`: a reading of the system clock, of which nothing
/// is looked into.
#[verifier::external_type_specification]
#[verifier::external_body]
pub struct ExSystemTime(std::time::SystemTime);

/// `std::time::SystemTimeError`: the error of a clock reading that lies
/// before the time it is compared with.
#[verifier::external_type_specification]
#[verifier::external_body]
pub struct ExSystemTimeError(std::time::SystemTimeError);

/// `SystemTime::now`: the system clock's current reading. Nothing is
/// claimed of it.
pub assume_specification[ std::time::SystemTime::now ]() -> (now: std::time::SystemTime)
;

/// `SystemTime::duration_since` with the Unix epoch as the earlier time:
/// how long after the Unix epoch `time` lies, or an error where it lies
/// before it. Nothing is claimed of either.
#[verifier::external_body]
fn since_unix_epoch(time: &std::time::SystemTime) -> (r: Result<
    core::time::Duration,
    std::time::SystemTimeError,
>) {
    time.duration_since(std::time::UNIX_EPOCH)
}

/// `Duration::as_secs`: the whole seconds of the duration. Nothing is
/// claimed of them.
pub assume_specification[ core::time::Duration::as_secs ](duration: &core::time::Duration) -> (secs:
    u64)
;

/// `Duration::subsec_nanos`: the part of the duration below one second, in
/// nanoseconds, which is less than one billion.
pub assume_specification[ core::time::Duration::subsec_nanos ](
    duration: &core::time::Duration,
) -> (nanos: u32)
    ensures
        nanos < 1_000_000_000,
;

/// The source of sequence numbers: 0 to 4095, then 0 again.
#[derive(Debug)]
pub struct FlakeGenerator {
    sequence: u64,
    wrapped: bool,
}

impl FlakeGenerator {
    /// The sequence number that the next call of [`FlakeGenerator::next_seq`]
    /// returns.
    pub closed spec fn sequence(&self) -> u64 {
        self.sequence
    }

    /// Whether the sequence has started again at 0 since the last call of
    /// [`FlakeGenerator::acknowledge_pause`].
    pub closed spec fn pause_due(&self) -> bool {
        self.wrapped
    }

    #[verifier::type_invariant]
    spec fn in_range(&self) -> bool {
        self.sequence <= MAX_SEQUENCE
    }

    /// A generator that starts at sequence number 0.
    pub fn new() -> (g: FlakeGenerator)
        ensures
            g.sequence() == 0,
            !g.pause_due(),
    {
        FlakeGenerator { sequence: 0, wrapped: false }
    }

    /// The next sequence number. After 4095 the sequence starts again at 0,
    /// and a pause is then due: a caller that wants numbers to differ by
    /// their timestamp waits a millisecond before it goes on.
    pub fn next_seq(&mut self) -> (seq: u64)
        ensures
            seq == old(self).sequence(),
            seq <= MAX_SEQUENCE,
            final(self).sequence() == next_sequence(seq),
            final(self).pause_due() == (old(self).pause_due() || seq == MAX_SEQUENCE),
    {
        proof {
            use_type_invariant(&*self);
        }
        let seq = self.sequence;
        if seq >= MAX_SEQUENCE {
            self.sequence = 0;
            self.wrapped = true;
        } else {
            self.sequence = seq + 1;
        }
        seq
    }

    /// Whether a pause is due; see [`FlakeGenerator::next_seq`].
    pub fn is_pause_due(&self) -> (due: bool)
        ensures
            due == self.pause_due(),
    {
        self.wrapped
    }

    /// Records that the caller has paused.
    pub fn acknowledge_pause(&mut self)
        ensures
            final(self).sequence() == old(self).sequence(),
            !final(self).pause_due(),
    {
        proof {
            use_type_invariant(&*self);
        }
        self.wrapped = false;
    }

    /// A new number from the system clock and the next sequence number. It
    /// fails only where the clock reads a time before [`DEFAULT_EPOCH`]; the
    /// sequence moves on either way.
    pub fn new_flake(&mut self) -> (r: Result<u64, FlakeError>)
        ensures
            final(self).sequence() == next_sequence(old(self).sequence()),
            final(self).pause_due() == (old(self).pause_due() || old(self).sequence()
                == MAX_SEQUENCE),
            match r {
                Ok(flake) => exists|secs: u64, nanos: u32|
                    nanos < 1_000_000_000 && #[trigger] flake_from_clock_spec(
                        secs,
                        nanos,
                        old(self).sequence(),
                    ) == Ok::<u64, FlakeError>(flake),
                Err(e) => e == FlakeError::ClockBeforeEpoch,
            },
    {
        let sequence = self.next_seq();
        let now = std::time::SystemTime::now();
        match since_unix_epoch(&now) {
            Ok(duration) => {
                let secs = duration.as_secs();
                let nanos = duration.subsec_nanos();
                flake_from_clock(secs, nanos, sequence)
            },
            Err(_) => Err(FlakeError::ClockBeforeEpoch),
        }
    }
}

} // verus!
