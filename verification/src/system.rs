//! The clock and the allocator of transaction ids.

use vstd::prelude::*;

verus! {

/// The highest id after which the allocator starts again from zero: ten
/// thousand ids below the end of the 16-bit range. As long as fewer than
/// that many queries are under way at once, no two of them bear one id.
pub const ID_WRAP: u16 = 55535;

/// The id that the allocator hands out after `id`.
pub open spec fn id_after(id: u16) -> u16 {
    if id > ID_WRAP {
        0
    } else {
        (id + 1) as u16
    }
}

/// Takes the next transaction id: hands out the id that `counter` holds and
/// moves `counter` on, back to zero once it is past `ID_WRAP`.
pub fn next_id(counter: &mut u16) -> (id: u16)
    ensures
        id == *old(counter),
        *final(counter) == id_after(*old(counter)),
{
    let id = *counter;
    if id > ID_WRAP {
        *counter = 0;
    } else {
        *counter = id + 1;
    }
    id
}

/// The milliseconds since the start of 1970 by the clock of the machine;
/// zero where the clock reads earlier than that.
///
/// Wraps `SystemTime::now`, `SystemTime::duration_since` and
/// `Duration::as_millis`. What the clock reads depends on when it is read,
/// so nothing is stated of the result.
#[verifier::external_body]
pub fn get_timestamp() -> u128 {
    std::time::SystemTime::now().duration_since(std::time::UNIX_EPOCH).map(
        |d| d.as_millis(),
    ).unwrap_or(0)
}

/// `base` moved forward by `add` and back by `sub`, held within the range
/// of the clock.
pub open spec fn shifted(base: u128, add: u128, sub: u128) -> u128 {
    let forward = if base + add > u128::MAX {
        u128::MAX
    } else {
        (base + add) as u128
    };
    if forward < sub {
        0
    } else {
        (forward - sub) as u128
    }
}

/// A clock that can be set to a fixed time and read once with an offset.
#[derive(Debug)]
pub struct TimeNow {
    timestamp: Option<u128>,
    add_duration: Option<u128>,
    sub_duration: Option<u128>,
}

impl TimeNow {
    /// The time that the clock is set to, if it is set.
    pub closed spec fn fixed(&self) -> Option<u128> {
        self.timestamp
    }

    /// By how many milliseconds the next reading is moved forward.
    pub closed spec fn pending_add(&self) -> u128 {
        match self.add_duration {
            Some(d) => d,
            None => 0,
        }
    }

    /// By how many milliseconds the next reading is moved back.
    pub closed spec fn pending_sub(&self) -> u128 {
        match self.sub_duration {
            Some(d) => d,
            None => 0,
        }
    }

    /// Whether `now` is what a reading of this clock gives while the clock
    /// of the machine shows `machine`: the time that the clock is set to,
    /// or else `machine`, moved by the pending offsets.
    pub open spec fn reads(&self, machine: u128, now: u128) -> bool {
        now == shifted(
            match self.fixed() {
                Some(base) => base,
                None => machine,
            },
            self.pending_add(),
            self.pending_sub(),
        )
    }

    /// A clock that follows the clock of the machine.
    pub fn new() -> (clock: Self)
        ensures
            clock.fixed() is None,
            clock.pending_add() == 0,
            clock.pending_sub() == 0,
    {
        TimeNow { timestamp: None, add_duration: None, sub_duration: None }
    }

    /// Sets the clock to `timestamp`; it stands still from then on.
    pub fn set_timestamp(&mut self, timestamp: u128)
        ensures
            final(self).fixed() == Some(timestamp),
            final(self).pending_add() == old(self).pending_add(),
            final(self).pending_sub() == old(self).pending_sub(),
    {
        self.timestamp = Some(timestamp);
    }

    /// Moves the next reading `d` milliseconds back.
    pub fn sub(&mut self, d: u128)
        ensures
            final(self).fixed() == old(self).fixed(),
            final(self).pending_add() == old(self).pending_add(),
            final(self).pending_sub() == d,
    {
        self.sub_duration = Some(d);
    }

    /// Moves the next reading `d` milliseconds forward.
    pub fn add(&mut self, d: u128)
        ensures
            final(self).fixed() == old(self).fixed(),
            final(self).pending_add() == d,
            final(self).pending_sub() == old(self).pending_sub(),
    {
        self.add_duration = Some(d);
    }

    /// Reads the clock: the time it is set to, or else the time of the
    /// machine, moved by the pending offsets, which are used up.
    pub fn get(&mut self) -> (now: u128)
        ensures
            final(self).fixed() == old(self).fixed(),
            final(self).pending_add() == 0,
            final(self).pending_sub() == 0,
            old(self).fixed() matches Some(base) ==> now == shifted(
                base,
                old(self).pending_add(),
                old(self).pending_sub(),
            ),
            exists|machine: u128| old(self).reads(machine, now),
    {
        let base = match self.timestamp {
            Some(timestamp) => timestamp,
            None => get_timestamp(),
        };
        assert(old(self).reads(base, shifted(base, old(self).pending_add(), old(self).pending_sub())));
        let add = match self.add_duration {
            Some(d) => d,
            None => 0,
        };
        let sub = match self.sub_duration {
            Some(d) => d,
            None => 0,
        };
        self.add_duration = None;
        self.sub_duration = None;
        let forward = if base > u128::MAX - add {
            u128::MAX
        } else {
            base + add
        };
        if forward < sub {
            0
        } else {
            forward - sub
        }
    }
}

/// The time of the machine, in milliseconds.
pub fn get_now() -> u128 {
    get_timestamp()
}

/// The time of the machine `d` milliseconds ago: what the clock of the
/// machine shows, moved back by `d` and held at zero.
pub fn get_sub_now(d: u128) -> (now: u128)
    ensures
        exists|machine: u128| now == shifted(machine, 0, d),
{
    let mut clock = TimeNow::new();
    clock.sub(d);
    let ghost before = clock;
    let now = clock.get();
    proof {
        let machine = choose|machine: u128| before.reads(machine, now);
        assert(now == shifted(machine, 0, d));
    }
    now
}

/// That a file named in the configuration could not be opened.
#[derive(Debug)]
pub struct FileNotFoundError {
    pub path: String,
    pub supper: String,
}

/// That a worker ended in a panic.
#[derive(Debug, Clone, Copy)]
pub struct PanicError;

impl PanicError {
    pub fn description(&self) -> (text: &'static str)
        ensures
            text@ == "thread panic error"@,
    {
        "thread panic error"
    }
}

} // verus!
