//! The logged event itself: one record per crash or interruption.

use vstd::prelude::*;

use crate::time::Timestamp;

verus! {

/// How the interrupted program ended.
#[derive(Clone, Copy, PartialEq, Eq, Structural, Debug)]
pub enum HowItWasStopped {
    SelfCrashed,
    ManuallyKilled,
}

/// What the user was doing when the interruption began.
#[derive(Clone, Copy, PartialEq, Eq, Structural, Debug)]
pub enum WhatWasHappening {
    Typing,
    Running,
    Testing,
    Debugging,
}

/// One logged event. `when` and `how` are always present on a committed
/// record; `frozen` and `busy` are independently optional timestamps;
/// `what` is an optional activity tag.
#[derive(Debug)]
pub struct Record {
    pub frozen: Option<Timestamp>,
    pub busy: Option<Timestamp>,
    pub description: String,
    pub how: HowItWasStopped,
    pub when: Timestamp,
    pub what: Option<WhatWasHappening>,
}

/// The mathematical shape of a record.
pub struct RecordV {
    pub frozen: Option<Timestamp>,
    pub busy: Option<Timestamp>,
    pub description: Seq<char>,
    pub how: HowItWasStopped,
    pub when: Timestamp,
    pub what: Option<WhatWasHappening>,
}

impl View for Record {
    type V = RecordV;

    open spec fn view(&self) -> RecordV {
        RecordV {
            frozen: self.frozen,
            busy: self.busy,
            description: self.description@,
            how: self.how,
            when: self.when,
            what: self.what,
        }
    }
}

impl RecordV {
    /// Every timestamp the record holds lies in calendar range.
    pub open spec fn valid(self) -> bool {
        &&& (self.frozen matches Some(t) ==> t.valid())
        &&& (self.busy matches Some(t) ==> t.valid())
        &&& self.when.valid()
    }
}

/// The fresh draft the editor starts from: nothing marked, an empty
/// note, stamped with the clock reading handed in.
pub open spec fn spec_fresh_record(now: Timestamp) -> RecordV {
    RecordV {
        frozen: None,
        busy: None,
        description: Seq::empty(),
        how: HowItWasStopped::SelfCrashed,
        when: now,
        what: None,
    }
}

impl Record {
    /// A fresh draft stamped with the given clock reading.
    pub fn new(now: Timestamp) -> (r: Record)
        ensures
            r@ == spec_fresh_record(now),
    {
        let r = Record {
            frozen: None,
            busy: None,
            description: String::new(),
            how: HowItWasStopped::SelfCrashed,
            when: now,
            what: None,
        };
        proof {
            assert(r@.description =~= spec_fresh_record(now).description);
        }
        r
    }

    /// A field-for-field copy.
    pub fn duplicate(&self) -> (r: Record)
        ensures
            r@ == self@,
    {
        Record {
            frozen: self.frozen,
            busy: self.busy,
            description: self.description.clone(),
            how: self.how,
            when: self.when,
            what: self.what,
        }
    }
}

} // verus!
