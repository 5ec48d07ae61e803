//! Timings and counters that are gathered while a slot is broadcast.
use vstd::prelude::*;

verus! {

/// A span of time: whole seconds, and nanoseconds below one second.
#[derive(Clone, Copy, Debug, PartialEq, Eq, Structural)]
pub struct Elapsed {
    pub secs: u64,
    pub subsec_nanos: u32,
}

/// `a` where it fits in a `u64`, else the largest `u64`.
pub open spec fn saturated(a: int) -> int {
    if a <= u64::MAX {
        a
    } else {
        u64::MAX as int
    }
}

impl Elapsed {
    pub open spec fn wf(self) -> bool {
        self.subsec_nanos < 1_000_000_000
    }

    /// The span in whole microseconds.
    pub open spec fn micros(self) -> int {
        saturated(saturated(self.secs * 1_000_000) + self.subsec_nanos as int / 1_000)
    }

    pub open spec fn spec_zero() -> Elapsed {
        Elapsed { secs: 0, subsec_nanos: 0 }
    }

    pub fn zero() -> (elapsed: Elapsed)
        ensures
            elapsed == Elapsed::spec_zero(),
    {
        Elapsed { secs: 0, subsec_nanos: 0 }
    }

    /// The span in whole microseconds, at most `u64::MAX`.
    pub fn as_us(&self) -> (us: u64)
        requires
            self.wf(),
        ensures
            us == self.micros(),
    {
        duration_as_us(self.secs, self.subsec_nanos)
    }
}

/// Calls `solana_sdk::timing::duration_as_us` on the duration of `secs` seconds and
/// `subsec_nanos` nanoseconds. Claimed of it: it returns the seconds times one million, plus the
/// nanoseconds divided by one thousand and rounded down, where the product and the sum each
/// stop at `u64::MAX`.
#[verifier::external_body]
fn duration_as_us(secs: u64, subsec_nanos: u32) -> (us: u64)
    requires
        subsec_nanos < 1_000_000_000,
    ensures
        us == saturated(saturated(secs * 1_000_000) + subsec_nanos as int / 1_000),
{
    solana_sdk::timing::duration_as_us(&std::time::Duration::new(secs, subsec_nanos))
}

/// Microseconds spent on making and sending the shreds of a slot.
#[derive(Clone, Copy, Debug, PartialEq, Eq, Structural)]
pub struct ProcessShredsStats {
    pub shredding_elapsed: u64,
    pub receive_elapsed: u64,
    pub serialize_elapsed: u64,
    pub gen_data_elapsed: u64,
    pub gen_coding_elapsed: u64,
    pub sign_coding_elapsed: u64,
    pub coding_send_elapsed: u64,
    pub get_leader_schedule_elapsed: u64,
}

impl ProcessShredsStats {
    pub open spec fn spec_zero() -> ProcessShredsStats {
        ProcessShredsStats {
            shredding_elapsed: 0,
            receive_elapsed: 0,
            serialize_elapsed: 0,
            gen_data_elapsed: 0,
            gen_coding_elapsed: 0,
            sign_coding_elapsed: 0,
            coding_send_elapsed: 0,
            get_leader_schedule_elapsed: 0,
        }
    }

    /// Whether each field can grow by the field of `new` without leaving `u64`.
    pub open spec fn spec_fits(self, new: ProcessShredsStats) -> bool {
        &&& self.shredding_elapsed + new.shredding_elapsed <= u64::MAX
        &&& self.receive_elapsed + new.receive_elapsed <= u64::MAX
        &&& self.serialize_elapsed + new.serialize_elapsed <= u64::MAX
        &&& self.gen_data_elapsed + new.gen_data_elapsed <= u64::MAX
        &&& self.gen_coding_elapsed + new.gen_coding_elapsed <= u64::MAX
        &&& self.sign_coding_elapsed + new.sign_coding_elapsed <= u64::MAX
        &&& self.coding_send_elapsed + new.coding_send_elapsed <= u64::MAX
        &&& self.get_leader_schedule_elapsed + new.get_leader_schedule_elapsed <= u64::MAX
    }

    /// The sum, field by field.
    pub open spec fn plus(self, new: ProcessShredsStats) -> ProcessShredsStats {
        ProcessShredsStats {
            shredding_elapsed: (self.shredding_elapsed + new.shredding_elapsed) as u64,
            receive_elapsed: (self.receive_elapsed + new.receive_elapsed) as u64,
            serialize_elapsed: (self.serialize_elapsed + new.serialize_elapsed) as u64,
            gen_data_elapsed: (self.gen_data_elapsed + new.gen_data_elapsed) as u64,
            gen_coding_elapsed: (self.gen_coding_elapsed + new.gen_coding_elapsed) as u64,
            sign_coding_elapsed: (self.sign_coding_elapsed + new.sign_coding_elapsed) as u64,
            coding_send_elapsed: (self.coding_send_elapsed + new.coding_send_elapsed) as u64,
            get_leader_schedule_elapsed: (self.get_leader_schedule_elapsed
                + new.get_leader_schedule_elapsed) as u64,
        }
    }

    pub fn zero() -> (stats: ProcessShredsStats)
        ensures
            stats == ProcessShredsStats::spec_zero(),
    {
        ProcessShredsStats {
            shredding_elapsed: 0,
            receive_elapsed: 0,
            serialize_elapsed: 0,
            gen_data_elapsed: 0,
            gen_coding_elapsed: 0,
            sign_coding_elapsed: 0,
            coding_send_elapsed: 0,
            get_leader_schedule_elapsed: 0,
        }
    }

    /// Whether [`ProcessShredsStats::update`] may be called with `new`.
    pub fn fits(&self, new: &ProcessShredsStats) -> (b: bool)
        ensures
            b == self.spec_fits(*new),
    {
        self.shredding_elapsed <= u64::MAX - new.shredding_elapsed
            && self.receive_elapsed <= u64::MAX - new.receive_elapsed
            && self.serialize_elapsed <= u64::MAX - new.serialize_elapsed
            && self.gen_data_elapsed <= u64::MAX - new.gen_data_elapsed
            && self.gen_coding_elapsed <= u64::MAX - new.gen_coding_elapsed
            && self.sign_coding_elapsed <= u64::MAX - new.sign_coding_elapsed
            && self.coding_send_elapsed <= u64::MAX - new.coding_send_elapsed
            && self.get_leader_schedule_elapsed <= u64::MAX - new.get_leader_schedule_elapsed
    }

    /// Adds `new` to the totals.
    pub fn update(&mut self, new: &ProcessShredsStats)
        requires
            old(self).spec_fits(*new),
        ensures
            *final(self) == old(self).plus(*new),
    {
        self.shredding_elapsed += new.shredding_elapsed;
        self.receive_elapsed += new.receive_elapsed;
        self.serialize_elapsed += new.serialize_elapsed;
        self.gen_data_elapsed += new.gen_data_elapsed;
        self.gen_coding_elapsed += new.gen_coding_elapsed;
        self.sign_coding_elapsed += new.sign_coding_elapsed;
        self.coding_send_elapsed += new.coding_send_elapsed;
        self.get_leader_schedule_elapsed += new.get_leader_schedule_elapsed;
    }

    /// Sets all totals to zero.
    pub fn reset(&mut self)
        ensures
            *final(self) == ProcessShredsStats::spec_zero(),
    {
        *self = ProcessShredsStats::zero();
    }
}

/// Microseconds that were measured around the steps of one batch.
#[derive(Clone, Copy, Debug, PartialEq, Eq, Structural)]
pub struct BatchTimings {
    pub shredding_elapsed: u64,
    pub get_leader_schedule_elapsed: u64,
    pub coding_send_elapsed: u64,
}

/// Microseconds are what is left of the nanoseconds in the span when each thousand is one; only a
/// span that is too long for a figure is told as the largest figure.
pub proof fn lemma_micros_are_thousands_of_nanoseconds(elapsed: Elapsed)
    requires
        elapsed.wf(),
    ensures
        ({
            let nanos = elapsed.secs * 1_000_000_000 + elapsed.subsec_nanos;
            &&& nanos / 1_000 <= u64::MAX ==> elapsed.micros() * 1_000 <= nanos < (elapsed.micros()
                + 1) * 1_000
            &&& nanos / 1_000 > u64::MAX ==> elapsed.micros() == u64::MAX
        }),
{
}

/// Figures fit if and only if each sum is within the range of a figure; and then each is the sum.
pub proof fn lemma_figures_add_up(a: ProcessShredsStats, b: ProcessShredsStats)
    ensures
        a.spec_fits(b) <==> {
            &&& a.shredding_elapsed <= u64::MAX - b.shredding_elapsed
            &&& a.receive_elapsed <= u64::MAX - b.receive_elapsed
            &&& a.serialize_elapsed <= u64::MAX - b.serialize_elapsed
            &&& a.gen_data_elapsed <= u64::MAX - b.gen_data_elapsed
            &&& a.gen_coding_elapsed <= u64::MAX - b.gen_coding_elapsed
            &&& a.sign_coding_elapsed <= u64::MAX - b.sign_coding_elapsed
            &&& a.coding_send_elapsed <= u64::MAX - b.coding_send_elapsed
            &&& a.get_leader_schedule_elapsed <= u64::MAX - b.get_leader_schedule_elapsed
        },
        a.spec_fits(b) ==> {
            let sum = a.plus(b);
            &&& sum.shredding_elapsed - a.shredding_elapsed == b.shredding_elapsed
            &&& sum.receive_elapsed - a.receive_elapsed == b.receive_elapsed
            &&& sum.serialize_elapsed - a.serialize_elapsed == b.serialize_elapsed
            &&& sum.gen_data_elapsed - a.gen_data_elapsed == b.gen_data_elapsed
            &&& sum.gen_coding_elapsed - a.gen_coding_elapsed == b.gen_coding_elapsed
            &&& sum.sign_coding_elapsed - a.sign_coding_elapsed == b.sign_coding_elapsed
            &&& sum.coding_send_elapsed - a.coding_send_elapsed == b.coding_send_elapsed
            &&& sum.get_leader_schedule_elapsed - a.get_leader_schedule_elapsed
                == b.get_leader_schedule_elapsed
        },
{
}

/// Adding is the same in either order, and adding to nothing changes nothing.
pub proof fn lemma_adding_figures_is_symmetric(a: ProcessShredsStats, b: ProcessShredsStats)
    ensures
        a.spec_fits(b) <==> b.spec_fits(a),
        a.plus(b) == b.plus(a),
        a.spec_fits(ProcessShredsStats::spec_zero()),
        a.plus(ProcessShredsStats::spec_zero()) == a,
{
}

} // verus!
