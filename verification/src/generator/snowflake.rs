//! The Snowflake algorithm.
//!
//! A 64-bit ID laid out as
//! `[timestamp:41][datacenter_id:5][worker_id:5][sequence:12]`:
//! milliseconds since 2024-01-01 00:00:00 UTC, the data-center and machine
//! IDs, and a sequence number that counts the IDs issued within one
//! millisecond (at most 4096 of them).

use vstd::prelude::*;

use crate::error::{AppError, GeneratorError};
use crate::generator::{lemma_history_append, lemma_history_prefix, spec_texts, IdGenerator};
use crate::utils::text::{lemma_decimal_injective, spec_decimal, u64_to_decimal};
use crate::utils::time::{current_timestamp_millis, spec_millis};

verus! {

/// The epoch of the timestamps: 2024-01-01 00:00:00 UTC, in Unix milliseconds.
pub const EPOCH: u64 = 1704067200000;

/// Bits of the timestamp.
pub const TIMESTAMP_BITS: u32 = 41;

/// Bits of the data-center ID.
pub const DATACENTER_ID_BITS: u32 = 5;

/// Bits of the machine ID.
pub const WORKER_ID_BITS: u32 = 5;

/// Bits of the sequence number.
pub const SEQUENCE_BITS: u32 = 12;

/// Largest data-center ID: 31.
pub const MAX_DATACENTER_ID: u64 = 31;

/// Largest machine ID: 31.
pub const MAX_WORKER_ID: u64 = 31;

/// Largest sequence number: 4095.
pub const MAX_SEQUENCE: u64 = 4095;

/// Position of the data-center ID.
pub const DATACENTER_ID_SHIFT: u32 = 17;

/// Position of the machine ID.
pub const WORKER_ID_SHIFT: u32 = 12;

/// Position of the timestamp.
pub const TIMESTAMP_SHIFT: u32 = 22;

/// The largest value of a 41-bit timestamp field.
pub const TIMESTAMP_MASK: u64 = 0x1FF_FFFF_FFFF;

/// The ID with the given fields: the timestamp taken modulo 2^41 in the top
/// 41 bits, then the data-center ID, the machine ID, and the sequence number,
/// each taken modulo its field's range.
pub open spec fn spec_compose_id(timestamp: u64, datacenter_id: u64, worker_id: u64, sequence: u64) -> int {
    (timestamp as int % 0x200_0000_0000) * 0x40_0000
        + (datacenter_id as int % 32) * 0x2_0000
        + (worker_id as int % 32) * 0x1000
        + sequence as int % 0x1000
}

/// Composes the ID with the given fields.
pub fn compose_id(timestamp: u64, datacenter_id: u64, worker_id: u64, sequence: u64) -> (id: u64)
    ensures
        id == spec_compose_id(timestamp, datacenter_id, worker_id, sequence),
        id >> 22u64 == timestamp & 0x1FF_FFFF_FFFF,
        (id >> 17u64) & 31 == datacenter_id & 31,
        (id >> 12u64) & 31 == worker_id & 31,
        id & 4095 == sequence & 4095,
{
    let id = ((timestamp & TIMESTAMP_MASK) << TIMESTAMP_SHIFT)
        | ((datacenter_id & MAX_DATACENTER_ID) << DATACENTER_ID_SHIFT)
        | ((worker_id & MAX_WORKER_ID) << WORKER_ID_SHIFT)
        | (sequence & MAX_SEQUENCE);
    assert(id >> 22u64 == timestamp & 0x1FF_FFFF_FFFF && (id >> 17u64) & 31 == datacenter_id & 31
        && (id >> 12u64) & 31 == worker_id & 31 && id & 4095 == sequence & 4095) by (bit_vector)
        requires
            id == ((timestamp & 0x1FF_FFFF_FFFF) << 22u32) | ((datacenter_id & 31) << 17u32)
                | ((worker_id & 31) << 12u32) | (sequence & 4095),
    ;
    assert(id == (timestamp % 0x200_0000_0000) * 0x40_0000 + (datacenter_id % 32) * 0x2_0000
        + (worker_id % 32) * 0x1000 + sequence % 0x1000) by (bit_vector)
        requires
            id == ((timestamp & 0x1FF_FFFF_FFFF) << 22u32) | ((datacenter_id & 31) << 17u32)
                | ((worker_id & 31) << 12u32) | (sequence & 4095),
    ;
    id
}

/// The fields of `id`: its top bits hold `timestamp` (modulo 2^41), then
/// the data-center ID, the machine ID and the sequence number.
pub open spec fn spec_id_fields(id: u64, timestamp: u64, datacenter_id: u64, worker_id: u64, sequence: u64) -> bool {
    &&& id >> 22u64 == timestamp & 0x1FF_FFFF_FFFF
    &&& (id >> 17u64) & 31 == datacenter_id
    &&& (id >> 12u64) & 31 == worker_id
    &&& id & 4095 == sequence
}

/// The state of a Snowflake generator, as values.
pub struct SnowflakeState {
    pub datacenter_id: u64,
    pub worker_id: u64,
    /// The timestamp of the last ID issued (0 before the first).
    pub last_timestamp: u64,
    /// The sequence number of the last ID issued within its millisecond.
    pub sequence: u64,
}

impl SnowflakeState {
    /// The IDs are in range and the sequence number fits its field.
    pub open spec fn wf(self) -> bool {
        &&& self.datacenter_id <= 31
        &&& self.worker_id <= 31
        &&& self.sequence <= 4095
    }

    /// The ID that the state's fields compose.
    pub open spec fn current_id(self) -> int {
        spec_compose_id(self.last_timestamp, self.datacenter_id, self.worker_id, self.sequence)
    }

    /// The state after an ID is asked for at clock reading `timestamp`, or
    /// `None` when the request is refused: the clock reads earlier than the
    /// last timestamp, or all 4096 sequence numbers of this millisecond are used.
    pub open spec fn advance(self, timestamp: u64) -> Option<SnowflakeState> {
        if timestamp < self.last_timestamp {
            None
        } else if timestamp == self.last_timestamp {
            if self.sequence < 4095 {
                Some(SnowflakeState {
                    datacenter_id: self.datacenter_id,
                    worker_id: self.worker_id,
                    last_timestamp: self.last_timestamp,
                    sequence: (self.sequence + 1) as u64,
                })
            } else {
                None
            }
        } else {
            Some(SnowflakeState {
                datacenter_id: self.datacenter_id,
                worker_id: self.worker_id,
                last_timestamp: timestamp,
                sequence: 0,
            })
        }
    }

    /// Why a request at clock reading `timestamp` is refused.
    pub open spec fn refusal(self, timestamp: u64) -> GeneratorError {
        if timestamp < self.last_timestamp {
            GeneratorError::ClockMovedBackwards
        } else {
            GeneratorError::SequenceOverflow
        }
    }

    /// `next` is the state after some accepted request from `self`.
    pub open spec fn leads_to(self, next: SnowflakeState) -> bool {
        exists|timestamp: u64| #[trigger] self.advance(timestamp) == Some(next)
    }

    /// A fresh state: no ID issued yet, so no clock reading can be refused.
    pub open spec fn is_fresh(self) -> bool {
        self.last_timestamp == 0 && self.sequence < 4095
    }

    /// `self` comes strictly before `other`: an earlier timestamp, or the
    /// same one and a smaller sequence number.
    pub open spec fn precedes(self, other: SnowflakeState) -> bool {
        ||| self.last_timestamp < other.last_timestamp
        ||| (self.last_timestamp == other.last_timestamp && self.sequence < other.sequence)
    }
}

/// Each accepted request moves the state strictly forward, keeps the
/// data-center and machine IDs, and keeps the state well formed.
pub proof fn lemma_advance_moves_forward(s: SnowflakeState, timestamp: u64)
    requires
        s.wf(),
        s.advance(timestamp) is Some,
    ensures
        s.precedes(s.advance(timestamp)->0),
        s.advance(timestamp)->0.wf(),
        s.advance(timestamp)->0.datacenter_id == s.datacenter_id,
        s.advance(timestamp)->0.worker_id == s.worker_id,
{
}

/// Of two states of one generator, the later composes the larger ID, as long
/// as its timestamp fits the 41-bit field (until about the year 2093).
pub proof fn lemma_later_state_larger_id(s: SnowflakeState, t: SnowflakeState)
    requires
        s.wf(),
        t.wf(),
        s.datacenter_id == t.datacenter_id,
        s.worker_id == t.worker_id,
        s.precedes(t),
        t.last_timestamp < 0x200_0000_0000,
    ensures
        s.current_id() < t.current_id(),
{
    let a = s.last_timestamp as int;
    let b = t.last_timestamp as int;
    assert(a % 0x200_0000_0000 == a);
    assert(b % 0x200_0000_0000 == b);
    let low_s = (s.datacenter_id as int % 32) * 0x2_0000 + (s.worker_id as int % 32) * 0x1000
        + s.sequence as int % 0x1000;
    let low_t = (t.datacenter_id as int % 32) * 0x2_0000 + (t.worker_id as int % 32) * 0x1000
        + t.sequence as int % 0x1000;
    assert(0 <= low_s < 0x40_0000);
    assert(0 <= low_t < 0x40_0000);
    if a < b {
        assert(a * 0x40_0000 + 0x40_0000 <= b * 0x40_0000) by (nonlinear_arith)
            requires a < b;
    } else {
        assert(s.sequence as int % 0x1000 == s.sequence);
        assert(t.sequence as int % 0x1000 == t.sequence);
    }
}

/// Successive IDs of one generator strictly increase, as long as the
/// timestamp fits the 41-bit field.
pub proof fn lemma_successive_ids_increase(s: SnowflakeState, timestamp: u64)
    requires
        s.wf(),
        s.advance(timestamp) is Some,
        s.advance(timestamp)->0.last_timestamp < 0x200_0000_0000,
    ensures
        s.current_id() < s.advance(timestamp)->0.current_id(),
{
    lemma_advance_moves_forward(s, timestamp);
    lemma_later_state_larger_id(s, s.advance(timestamp)->0);
}

/// The ID's top bits hold the timestamp modulo 2^41, and its low 12 bits the
/// sequence number.
pub proof fn lemma_id_fields(s: SnowflakeState)
    requires
        s.wf(),
    ensures
        s.current_id() / 0x40_0000 == s.last_timestamp as int % 0x200_0000_0000,
        s.current_id() % 0x1000 == s.sequence as int,
        s.current_id() / 0x1000 % 32 == s.worker_id as int,
        s.current_id() / 0x2_0000 % 32 == s.datacenter_id as int,
{
    let hi = s.last_timestamp as int % 0x200_0000_0000;
    let low = (s.datacenter_id as int % 32) * 0x2_0000 + (s.worker_id as int % 32) * 0x1000
        + s.sequence as int % 0x1000;
    assert(0 <= low < 0x40_0000);
    assert(s.current_id() == hi * 0x40_0000 + low);
    assert((hi * 0x40_0000 + low) / 0x40_0000 == hi) by (nonlinear_arith)
        requires 0 <= low < 0x40_0000, hi >= 0;
    let mid = (s.datacenter_id as int % 32) * 0x20 + (s.worker_id as int % 32);
    assert(s.current_id() == (hi * 0x400 + mid) * 0x1000 + s.sequence as int);
    assert(((hi * 0x400 + mid) * 0x1000 + s.sequence as int) % 0x1000 == s.sequence as int)
        by (nonlinear_arith)
        requires hi >= 0, mid >= 0, 0 <= s.sequence < 0x1000;
    let w = s.worker_id as int;
    let d = s.datacenter_id as int;
    assert(s.current_id() == ((hi * 0x20 + d) * 0x20 + w) * 0x1000 + s.sequence as int);
    assert((((hi * 0x20 + d) * 0x20 + w) * 0x1000 + s.sequence as int) / 0x1000 % 32 == w)
        by (nonlinear_arith)
        requires hi >= 0, 0 <= d < 32, 0 <= w < 32, 0 <= s.sequence < 0x1000;
    assert(((hi * 0x20 + d) * 0x20 + w) * 0x1000 + s.sequence as int == (hi * 0x20 + d) * 0x2_0000
        + (w * 0x1000 + s.sequence as int));
    assert(((hi * 0x20 + d) * 0x2_0000 + (w * 0x1000 + s.sequence as int)) / 0x2_0000 % 32 == d)
        by (nonlinear_arith)
        requires hi >= 0, 0 <= d < 32, 0 <= w < 32, 0 <= s.sequence < 0x1000;
}

/// A run of one generator: each state is reached from the one before by an
/// accepted request. The first state is where the run starts; the others are
/// the states right after each issued ID, whose `current_id` is that ID
/// (a refused request leaves the state as it was, so it adds nothing).
pub open spec fn is_run(states: Seq<SnowflakeState>) -> bool {
    &&& states.len() >= 1
    &&& states[0].wf()
    &&& forall|i: int, j: int|
        0 <= i && j == i + 1 && j < states.len() ==> #[trigger] states[i].leads_to(#[trigger] states[j])
}

/// Along a run the states stay well formed, keep the data-center and machine
/// IDs, and strictly move forward.
proof fn lemma_run_in_order(states: Seq<SnowflakeState>)
    requires
        is_run(states),
    ensures
        forall|i: int| 0 <= i < states.len() ==> {
            &&& (#[trigger] states[i]).wf()
            &&& states[i].datacenter_id == states[0].datacenter_id
            &&& states[i].worker_id == states[0].worker_id
        },
        forall|i: int, j: int| 0 <= i < j < states.len() ==> (#[trigger] states[i]).precedes(#[trigger] states[j]),
    decreases states.len(),
{
    let n = states.len() as int;
    if n > 1 {
        let prefix = states.drop_last();
        assert forall|i: int, j: int|
            0 <= i && j == i + 1 && j < prefix.len() implies #[trigger] prefix[i].leads_to(#[trigger] prefix[j]) by {
            assert(states[i].leads_to(states[j]));
        }
        lemma_run_in_order(prefix);
        let last = states[n - 1];
        let before = states[n - 2];
        assert(before.leads_to(last));
        assert(before == prefix[n - 2]);
        let t = choose|t: u64| before.advance(t) == Some(last);
        lemma_advance_moves_forward(before, t);
        assert forall|i: int| 0 <= i < n implies {
            &&& (#[trigger] states[i]).wf()
            &&& states[i].datacenter_id == states[0].datacenter_id
            &&& states[i].worker_id == states[0].worker_id
        } by {
            if i < n - 1 {
                assert(states[i] == prefix[i]);
            }
        }
        assert forall|i: int, j: int| 0 <= i < j < n implies (#[trigger] states[i]).precedes(#[trigger] states[j]) by {
            assert(states[i] == prefix[i]);
            if j < n - 1 {
                assert(states[j] == prefix[j]);
            } else if i < n - 2 {
                assert(prefix[i].precedes(prefix[n - 2]));
            }
        }
    }
}

/// Over any number of successive requests to one generator, the issued IDs
/// strictly increase, so no ID is issued twice, as long as the timestamp fits
/// the 41-bit field.
pub proof fn lemma_run_ids_increase(states: Seq<SnowflakeState>)
    requires
        is_run(states),
        states.last().last_timestamp < 0x200_0000_0000,
    ensures
        forall|i: int, j: int|
            0 <= i < j < states.len() ==> (#[trigger] states[i]).current_id() < (#[trigger] states[j]).current_id(),
        forall|i: int, j: int|
            0 <= i < j < states.len() ==> spec_decimal((#[trigger] states[i]).current_id() as nat)
                != spec_decimal((#[trigger] states[j]).current_id() as nat),
{
    lemma_run_in_order(states);
    let n = states.len() as int;
    assert forall|i: int, j: int| 0 <= i < j < n implies (#[trigger] states[i]).current_id()
        < (#[trigger] states[j]).current_id() && spec_decimal(states[i].current_id() as nat)
        != spec_decimal(states[j].current_id() as nat) by {
        if j < n - 1 {
            assert(states[j].precedes(states[n - 1]));
        }
        lemma_later_state_larger_id(states[i], states[j]);
        if spec_decimal(states[i].current_id() as nat) == spec_decimal(states[j].current_id() as nat) {
            lemma_decimal_injective(states[i].current_id() as nat, states[j].current_id() as nat);
        }
    }
}

/// Over any number of successive requests to one generator, at most 4096 IDs
/// are issued in any one millisecond.
pub proof fn lemma_run_per_millisecond(states: Seq<SnowflakeState>, timestamp: u64)
    requires
        is_run(states),
    ensures
        Set::new(|i: int| 1 <= i < states.len() && states[i].last_timestamp == timestamp).finite(),
        Set::new(|i: int| 1 <= i < states.len() && states[i].last_timestamp == timestamp).len() <= 4096,
{
    lemma_run_in_order(states);
    let issued = Set::new(|i: int| 1 <= i < states.len() && states[i].last_timestamp == timestamp);
    let range = vstd::set_lib::set_int_range(1, states.len() as int);
    vstd::set_lib::lemma_int_range(1, states.len() as int);
    vstd::set_lib::lemma_len_subset(issued, range);
    let seq_of = |i: int| states[i].sequence as int;
    assert(vstd::relations::injective_on(seq_of, issued)) by {
        assert forall|a: int, b: int|
            issued.contains(a) && issued.contains(b) && #[trigger] seq_of(a) == #[trigger] seq_of(b) implies a == b by {
            if a < b {
                assert(states[a].precedes(states[b]));
            } else if b < a {
                assert(states[b].precedes(states[a]));
            }
        }
    }
    let numbers = issued.map(seq_of);
    vstd::set_lib::lemma_map_size(issued, numbers, seq_of);
    let all_numbers = vstd::set_lib::set_int_range(0, 4096);
    vstd::set_lib::lemma_int_range(0, 4096);
    assert(numbers.subset_of(all_numbers)) by {
        assert forall|x: int| numbers.contains(x) implies all_numbers.contains(x) by {
            let i = choose|i: int| issued.contains(i) && x == seq_of(i);
            assert(states[i].wf());
        }
    }
    vstd::set_lib::lemma_len_subset(numbers, all_numbers);
}

/// `t` is a reading of the generator's clock: the milliseconds since the
/// epoch of some time (with the wrap-around of `u64` arithmetic).
pub open spec fn is_clock_reading(t: u64) -> bool {
    exists|secs: i64, ms: u16|
        ms < 1000 && t == vstd::wrapping::u64_specs::wrapping_sub(#[trigger] spec_millis(secs, ms), EPOCH)
}

/// `readings` are 2^64 clock readings, none of which passed `last_timestamp`:
/// what a wait for the next millisecond has taken when it gives up.
pub open spec fn spec_waited_in_vain(readings: Seq<u64>, last_timestamp: u64) -> bool {
    &&& readings.len() == 0x1_0000_0000_0000_0000
    &&& forall|i: int| 0 <= i < readings.len() ==> is_clock_reading(#[trigger] readings[i])
    &&& forall|i: int| 0 <= i < readings.len() ==> #[trigger] readings[i] <= last_timestamp
}

/// `ids` are the decimal texts of the IDs that one generator issued, in
/// order, while it went from state `pre` to state `post`: it moved forward if
/// it issued any, and, as long as the timestamp fits the 41-bit field, the
/// IDs strictly increase, all lie above the ID of `pre`, and no text repeats.
pub open spec fn spec_issued_in_order(pre: SnowflakeState, post: SnowflakeState, ids: Seq<String>) -> bool {
    &&& ids.len() > 0 ==> pre.precedes(post)
    &&& exists|values: Seq<int>|
        #![trigger values.len()]
        {
            &&& values.len() == ids.len()
            &&& forall|i: int| 0 <= i < ids.len() ==> (#[trigger] ids[i])@ == spec_decimal(values[i] as nat)
            &&& post.last_timestamp < 0x200_0000_0000 ==> {
                &&& forall|i: int, j: int| 0 <= i < j < ids.len() ==> values[i] < values[j]
                &&& forall|i: int| 0 <= i < ids.len() ==> pre.current_id() < values[i]
                &&& forall|i: int, j: int| 0 <= i < j < ids.len() ==> (#[trigger] ids[i])@ != (#[trigger] ids[j])@
            }
        }
}

/// Strictly increasing values have pairwise different decimal texts.
pub proof fn lemma_increasing_texts_differ(ids: Seq<String>, values: Seq<int>)
    requires
        values.len() == ids.len(),
        forall|i: int| 0 <= i < values.len() ==> values[i] >= 0,
        forall|i: int| 0 <= i < ids.len() ==> (#[trigger] ids[i])@ == spec_decimal(values[i] as nat),
        forall|i: int, j: int| 0 <= i < j < ids.len() ==> values[i] < values[j],
    ensures
        forall|i: int, j: int| 0 <= i < j < ids.len() ==> (#[trigger] ids[i])@ != (#[trigger] ids[j])@,
{
    assert forall|i: int, j: int| 0 <= i < j < ids.len() implies (#[trigger] ids[i])@ != (#[trigger] ids[j])@ by {
        if ids[i]@ == ids[j]@ {
            lemma_decimal_injective(values[i] as nat, values[j] as nat);
        }
    }
}

/// The generator took a clock reading for the request and issued at it: the
/// new state is what an accepted request at that reading gives.
pub open spec fn spec_issued_at_reading(pre: SnowflakeState, post: SnowflakeState) -> bool {
    exists|t: u64| #[trigger] is_clock_reading(t) && pre.advance(t) == Some(post)
}

/// An ID issued at clock reading `t` is never dated before `t`: its
/// timestamp is at least `t`, and a reading past the last timestamp starts
/// that very millisecond with sequence number 0. While the timestamp fits
/// the 41-bit field, the ID's top bits are that timestamp.
pub proof fn lemma_issued_not_before_reading(s: SnowflakeState, t: u64)
    requires
        s.wf(),
        s.advance(t) is Some,
    ensures
        s.advance(t)->0.last_timestamp >= t,
        t > s.last_timestamp ==> s.advance(t)->0.last_timestamp == t && s.advance(t)->0.sequence == 0,
        s.advance(t)->0.last_timestamp < 0x200_0000_0000 ==> s.advance(t)->0.current_id() / 0x40_0000 >= t,
{
    lemma_advance_moves_forward(s, t);
    lemma_id_fields(s.advance(t)->0);
}

/// Every ID of a run carries the data-center and machine IDs that the run
/// started with.
pub proof fn lemma_run_ids_carry_machine(states: Seq<SnowflakeState>)
    requires
        is_run(states),
    ensures
        forall|i: int| 0 <= i < states.len() ==> {
            &&& (#[trigger] states[i]).current_id() / 0x1000 % 32 == states[0].worker_id
            &&& states[i].current_id() / 0x2_0000 % 32 == states[0].datacenter_id
        },
{
    lemma_run_in_order(states);
    assert forall|i: int| 0 <= i < states.len() implies {
        &&& (#[trigger] states[i]).current_id() / 0x1000 % 32 == states[0].worker_id
        &&& states[i].current_id() / 0x2_0000 % 32 == states[0].datacenter_id
    } by {
        lemma_id_fields(states[i]);
    }
}

/// The outcome of creating a generator: a machine ID above 31 is refused,
/// then a data-center ID above 31; otherwise the generator starts with
/// timestamp and sequence 0.
pub open spec fn spec_creation(worker_id: u64, datacenter_id: u64) -> Result<SnowflakeState, AppError> {
    if worker_id > MAX_WORKER_ID {
        Err(AppError::Generator(GeneratorError::InvalidWorkerId(worker_id)))
    } else if datacenter_id > MAX_DATACENTER_ID {
        Err(AppError::Generator(GeneratorError::InvalidDatacenterId(datacenter_id)))
    } else {
        Ok(SnowflakeState { datacenter_id, worker_id, last_timestamp: 0, sequence: 0 })
    }
}

/// A Snowflake ID generator for one data-center and machine.
pub struct SnowflakeGenerator {
    datacenter_id: u64,
    worker_id: u64,
    sequence: u64,
    last_timestamp: u64,
    /// The texts that `generate` has handed out, in order.
    history: Ghost<Seq<Seq<char>>>,
}

impl View for SnowflakeGenerator {
    type V = SnowflakeState;

    closed spec fn view(&self) -> SnowflakeState {
        SnowflakeState {
            datacenter_id: self.datacenter_id,
            worker_id: self.worker_id,
            last_timestamp: self.last_timestamp,
            sequence: self.sequence,
        }
    }
}

impl SnowflakeGenerator {
    #[verifier::type_invariant]
    spec fn inv(self) -> bool {
        self@.wf()
    }

    /// Creates a generator for machine `worker_id` in data center
    /// `datacenter_id`, each of which must be at most 31.
    pub fn new(worker_id: u64, datacenter_id: u64) -> (r: Result<Self, AppError>)
        ensures
            match r {
                Ok(g) => spec_creation(worker_id, datacenter_id) == Ok::<SnowflakeState, AppError>(g@),
                Err(e) => spec_creation(worker_id, datacenter_id) == Err::<SnowflakeState, AppError>(e),
            },
            r is Ok <==> worker_id <= 31 && datacenter_id <= 31,
            r matches Ok(g) ==> {
                &&& g@.worker_id == worker_id
                &&& g@.datacenter_id == datacenter_id
                &&& g@.last_timestamp == 0
                &&& g@.sequence == 0
                &&& g.spec_history() == Seq::<Seq<char>>::empty()
            },
    {
        if worker_id > MAX_WORKER_ID {
            return Err(AppError::Generator(GeneratorError::InvalidWorkerId(worker_id)));
        }
        if datacenter_id > MAX_DATACENTER_ID {
            return Err(AppError::Generator(GeneratorError::InvalidDatacenterId(datacenter_id)));
        }
        Ok(SnowflakeGenerator { datacenter_id, worker_id, sequence: 0, last_timestamp: 0, history: Ghost(Seq::empty()) })
    }

    /// Milliseconds since the epoch, read from the clock.
    fn timestamp(&self) -> (ts: u64)
        ensures
            is_clock_reading(ts),
    {
        current_timestamp_millis().wrapping_sub(EPOCH)
    }

    /// Reads the clock until it passes `last_timestamp` and returns that
    /// reading; `None` once 2^64 readings in a row have not passed it. The
    /// ghost part records the readings taken.
    fn wait_next_millis(&self, last_timestamp: u64) -> (r: (Option<u64>, Ghost<Seq<u64>>))
        ensures
            r.0 matches Some(t) ==> t > last_timestamp && is_clock_reading(t),
            r.0 is None ==> spec_waited_in_vain(r.1@, last_timestamp),
    {
        let mut ts = self.timestamp();
        let ghost mut readings: Seq<u64> = seq![ts];
        let mut spins: u64 = 0;
        while ts <= last_timestamp
            invariant
                is_clock_reading(ts),
                readings.len() == spins + 1,
                readings.last() == ts,
                forall|i: int| 0 <= i < readings.len() ==> is_clock_reading(#[trigger] readings[i]),
                forall|i: int| 0 <= i < readings.len() - 1 ==> #[trigger] readings[i] <= last_timestamp,
            decreases u64::MAX - spins,
        {
            if spins == u64::MAX {
                return (None, Ghost(readings));
            }
            spins = spins + 1;
            ts = self.timestamp();
            proof {
                readings = readings.push(ts);
            }
        }
        (Some(ts), Ghost(readings))
    }

    /// Issues the ID for a request at clock reading `timestamp` (milliseconds
    /// since the epoch): a later millisecond starts the sequence at 0, the same
    /// millisecond takes the next sequence number; an earlier reading, or a
    /// millisecond whose 4096 sequence numbers are used, is refused and leaves
    /// the generator as it was.
    pub fn next_id_at(&mut self, timestamp: u64) -> (r: Result<u64, GeneratorError>)
        ensures
            match old(self)@.advance(timestamp) {
                Some(s) => final(self)@ == s && r == Ok::<u64, GeneratorError>(s.current_id() as u64),
                None => final(self)@ == old(self)@ && r == Err::<u64, GeneratorError>(
                    old(self)@.refusal(timestamp),
                ),
            },
            r matches Ok(id) ==> spec_id_fields(
                id,
                final(self)@.last_timestamp,
                final(self)@.datacenter_id,
                final(self)@.worker_id,
                final(self)@.sequence,
            ),
        final(self).spec_history() == old(self).spec_history(),
    {
        proof {
            use_type_invariant(&*self);
        }
        if timestamp < self.last_timestamp {
            return Err(GeneratorError::ClockMovedBackwards);
        }
        if timestamp == self.last_timestamp {
            if self.sequence >= MAX_SEQUENCE {
                return Err(GeneratorError::SequenceOverflow);
            }
            self.sequence = self.sequence + 1;
        } else {
            self.sequence = 0;
            self.last_timestamp = timestamp;
        }
        let w = self.worker_id;
        let d = self.datacenter_id;
        let q = self.sequence;
        assert(w & 31 == w && d & 31 == d && q & 4095 == q) by (bit_vector)
            requires
                w <= 31,
                d <= 31,
                q <= 4095,
        ;
        Ok(compose_id(self.last_timestamp, d, w, q))
    }

    /// Issues the next ID at the current time. When this millisecond's
    /// sequence numbers are used up, waits for the next millisecond; the
    /// overflow error comes only after 2^64 clock readings in a row have not
    /// passed the last timestamp.
    pub fn next_id(&mut self) -> (r: Result<u64, AppError>)
        ensures
            final(self)@.datacenter_id == old(self)@.datacenter_id,
            final(self)@.worker_id == old(self)@.worker_id,
            r matches Ok(id) ==> {
                &&& old(self)@.leads_to(final(self)@)
                &&& id == final(self)@.current_id()
                &&& old(self)@.precedes(final(self)@)
                &&& final(self)@.last_timestamp < 0x200_0000_0000 ==> old(self)@.current_id() < id
                &&& spec_issued_at_reading(old(self)@, final(self)@)
                &&& spec_id_fields(
                    id,
                    final(self)@.last_timestamp,
                    old(self)@.datacenter_id,
                    old(self)@.worker_id,
                    final(self)@.sequence,
                )
            },
            r matches Err(e) ==> {
                &&& final(self)@ == old(self)@
                &&& (e == AppError::Generator(GeneratorError::ClockMovedBackwards) && old(
                    self,
                )@.last_timestamp > 0 || (e == AppError::Generator(GeneratorError::SequenceOverflow)
                    && old(self)@.sequence == MAX_SEQUENCE && exists|readings: Seq<u64>|
                    #[trigger] spec_waited_in_vain(readings, old(self)@.last_timestamp)))
            },
            old(self)@.is_fresh() ==> r is Ok,
            final(self).spec_history() == old(self).spec_history(),
    {
        proof {
            use_type_invariant(&*self);
        }
        let ghost start = self@;
        let ghost mut witness: Seq<u64> = Seq::empty();
        let ts = self.timestamp();
        let r = match self.next_id_at(ts) {
            Ok(id) => Ok(id),
            Err(GeneratorError::SequenceOverflow) => {
                let last = self.last_timestamp;
                let (waited, Ghost(readings)) = self.wait_next_millis(last);
                match waited {
                    Some(later) => match self.next_id_at(later) {
                        Ok(id) => Ok(id),
                        Err(e) => Err(AppError::Generator(e)),
                    },
                    None => {
                        proof {
                            witness = readings;
                        }
                        Err(AppError::Generator(GeneratorError::SequenceOverflow))
                    },
                }
            },
            Err(e) => Err(AppError::Generator(e)),
        };
        proof {
            if r == Err::<u64, AppError>(AppError::Generator(GeneratorError::SequenceOverflow)) {
                assert(spec_waited_in_vain(witness, start.last_timestamp));
            }
            if r is Ok {
                assert(start.leads_to(self@));
                lemma_advance_moves_forward(start, choose|t: u64| start.advance(t) == Some(self@));
                if self@.last_timestamp < 0x200_0000_0000 {
                    lemma_later_state_larger_id(start, self@);
                }
            }
        }
        r
    }
}

impl IdGenerator for SnowflakeGenerator {
    /// The decimal text of an ID with this generator's data-center and machine IDs.
    open spec fn spec_issues(&self, id: Seq<char>) -> bool {
        exists|timestamp: u64, sequence: u64|
            sequence <= 4095 && id == spec_decimal(
                #[trigger] spec_compose_id(timestamp, self@.datacenter_id, self@.worker_id, sequence) as nat,
            )
    }

    /// A clock that moved backwards, or a sequence that overflowed.
    open spec fn spec_fails_with(&self, e: AppError) -> bool {
        e == AppError::Generator(GeneratorError::ClockMovedBackwards) || e == AppError::Generator(
            GeneratorError::SequenceOverflow,
        )
    }

    closed spec fn spec_history(&self) -> Seq<Seq<char>> {
        self.history@
    }

    /// Issues the next ID, in decimal.
    fn generate(&mut self) -> (r: Result<String, AppError>)
        ensures
            final(self)@.datacenter_id == old(self)@.datacenter_id,
            final(self)@.worker_id == old(self)@.worker_id,
            r matches Ok(id) ==> {
                &&& id@ == spec_decimal(final(self)@.current_id() as nat)
                &&& old(self)@.leads_to(final(self)@)
                &&& spec_issued_at_reading(old(self)@, final(self)@)
                &&& old(self)@.precedes(final(self)@)
                &&& final(self)@.last_timestamp < 0x200_0000_0000 ==> old(self)@.current_id()
                    < final(self)@.current_id()
            },
            r matches Err(e) ==> {
                &&& final(self)@ == old(self)@
                &&& (e == AppError::Generator(GeneratorError::ClockMovedBackwards) && old(
                    self,
                )@.last_timestamp > 0 || (e == AppError::Generator(GeneratorError::SequenceOverflow)
                    && old(self)@.sequence == MAX_SEQUENCE && exists|readings: Seq<u64>|
                    #[trigger] spec_waited_in_vain(readings, old(self)@.last_timestamp)))
            },
            old(self)@.is_fresh() ==> r is Ok,
    {
        match self.next_id() {
            Ok(id) => {
                proof {
                    use_type_invariant(&*self);
                    assert(spec_compose_id(self@.last_timestamp, self@.datacenter_id, self@.worker_id, self@.sequence) == id);
                }
                let text = u64_to_decimal(id);
                proof {
                    self.history@ = self.history@.push(text@);
                }
                Ok(text)
            },
            Err(e) => Err(e),
        }
    }

    /// Issues `count` IDs in decimal, one after the other; the first failure
    /// ends the batch. The IDs of a batch strictly increase, as long as the
    /// generator's timestamp fits the 41-bit field.
    #[verifier::spinoff_prover]
    fn generate_batch(&mut self, count: usize) -> (r: Result<Vec<String>, AppError>)
        ensures
            final(self)@.datacenter_id == old(self)@.datacenter_id,
            final(self)@.worker_id == old(self)@.worker_id,
            r matches Err(e) ==> (e == AppError::Generator(GeneratorError::ClockMovedBackwards) || e
                == AppError::Generator(GeneratorError::SequenceOverflow)),
            r matches Err(e) ==> {
                ||| e == AppError::Generator(GeneratorError::ClockMovedBackwards)
                    && final(self)@.last_timestamp > 0
                ||| e == AppError::Generator(GeneratorError::SequenceOverflow)
                    && final(self)@.sequence == MAX_SEQUENCE && exists|readings: Seq<u64>|
                    #[trigger] spec_waited_in_vain(readings, final(self)@.last_timestamp)
            },
            r is Err && count == 1 ==> final(self)@ == old(self)@,
            count == 0 ==> r is Ok,
            count == 1 && old(self)@.is_fresh() ==> r is Ok,
            r matches Ok(ids) ==> spec_issued_in_order(old(self)@, final(self)@, ids@),
    {
        proof {
            use_type_invariant(&*self);
        }
        let ghost start = self@;
        let ghost mut states: Seq<SnowflakeState> = Seq::empty();
        let mut ids: Vec<String> = Vec::new();
        let mut k: usize = 0;
        while k < count
            invariant
                k <= count,
                ids@.len() == k,
                states.len() == k,
                self@.wf(),
                start.wf(),
                self@.datacenter_id == start.datacenter_id,
                self@.worker_id == start.worker_id,
                start == old(self)@,
                k == 0 ==> self@ == start,
                self@ == start || start.precedes(self@),
                forall|i: int| 0 <= i < k ==> (#[trigger] states[i]).wf() && states[i].datacenter_id
                    == start.datacenter_id && states[i].worker_id == start.worker_id,
                forall|i: int| 0 <= i < k ==> (#[trigger] states[i] == self@ || states[i].precedes(self@)),
                forall|i: int| 0 <= i < k ==> start.precedes(#[trigger] states[i]),
                forall|i: int, j: int| 0 <= i < j < k ==> (#[trigger] states[i]).precedes(#[trigger] states[j]),
                forall|i: int| 0 <= i < k ==> (#[trigger] ids@[i])@ == spec_decimal(states[i].current_id() as nat),
                self.spec_history() == old(self).spec_history() + spec_texts(ids@),
            decreases count - k,
        {
            let ghost before = self@;
            match self.generate() {
                Ok(id) => {
                    proof {
                        use_type_invariant(&*self);
                        assert forall|i: int| 0 <= i < k implies (#[trigger] states[i]).precedes(self@) by {
                            assert(states[i] == before || states[i].precedes(before));
                        }
                        states = states.push(self@);
                    }
                    proof {
                        lemma_history_append(old(self).spec_history(), ids@, id);
                    }
                    ids.push(id);
                },
                Err(e) => {
                    proof {
                        if k == 0 {
                            assert(before == start);
                        }
                        lemma_history_prefix(old(self).spec_history(), ids@);
                    }
                    return Err(e);
                },
            }
            k = k + 1;
        }
        proof {
            let values = Seq::new(count as nat, |i: int| states[i].current_id());
            assert forall|i: int| 0 <= i < count implies (#[trigger] ids@[i])@ == spec_decimal(values[i] as nat) by {}
            if self@.last_timestamp < 0x200_0000_0000 {
                assert forall|i: int, j: int| 0 <= i < j < count implies values[i] < values[j] by {
                    let sj = states[j];
                    assert(sj == self@ || sj.precedes(self@));
                    assert(sj.last_timestamp < 0x200_0000_0000);
                    lemma_later_state_larger_id(states[i], sj);
                }
                assert forall|i: int| 0 <= i < count implies start.current_id() < values[i] by {
                    let si = states[i];
                    assert(si == self@ || si.precedes(self@));
                    lemma_later_state_larger_id(start, si);
                }
            }
            assert(values.len() == count);
            if self@.last_timestamp < 0x200_0000_0000 {
                assert forall|i: int| 0 <= i < count implies values[i] >= 0 by {
                    assert(start.current_id() >= 0);
                }
                lemma_increasing_texts_differ(ids@, values);
            }
            lemma_history_prefix(old(self).spec_history(), ids@);
            if count > 0 {
                let last = states[count - 1];
                assert(last == self@ || last.precedes(self@));
                assert(start.precedes(last));
            }
        }
        Ok(ids)
    }

    fn name(&self) -> (n: &str)
        ensures
            n@ == "snowflake"@,
    {
        "snowflake"
    }
}

} // verus!
