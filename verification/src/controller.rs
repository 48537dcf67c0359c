//! The application's state machine: one state record, one transition
//! per input event.
//!
//! Loading starts absent and always reaches a loaded store — a failed
//! load substitutes an empty one. Saves go through a single-slot guard:
//! while one save is in flight, further triggers only mark the state
//! dirty, and the save's completion event issues one more save with the
//! latest contents. A failed save is surfaced in the state rather than
//! dropped.

use vstd::prelude::*;

use crate::codec::{encode, spec_encode};
use crate::record::{Record, RecordV, HowItWasStopped, WhatWasHappening, spec_fresh_record};
use crate::store::{AppData, LoadError, SaveError, spec_commit};
use crate::time::Timestamp;

verus! {

/// A keyboard event as the toolkit reports it: whether it is a press,
/// whether the key is F11, and the modifier states.
#[derive(Clone, Copy, PartialEq, Eq, Structural, Debug)]
pub struct KeyEvent {
    pub pressed: bool,
    pub f11: bool,
    pub shift: bool,
    pub control: bool,
    pub alt: bool,
    pub logo: bool,
}

impl KeyEvent {
    /// The chord that toggles the layout-debug overlay: F11 pressed
    /// with no modifier held.
    pub open spec fn is_debug_chord(self) -> bool {
        self.pressed && self.f11 && !self.shift && !self.control && !self.alt && !self.logo
    }
}

/// An input event. Events that stamp a time carry the clock reading
/// taken when they were delivered.
#[derive(Debug)]
pub enum Message {
    DataLoaded(Result<AppData, LoadError>),
    Saved(Result<(), SaveError>),
    Tick(Timestamp),
    EventOccurred(KeyEvent),
    WhatChanged(WhatWasHappening),
    DescriptionEdited(String),
    FrozenToggled { checked: bool, now: Timestamp },
    BusyToggled { checked: bool, now: Timestamp },
    CrashClicked { now: Timestamp },
    KilledClicked { now: Timestamp },
    ClearClicked,
}

/// What the surrounding program must do after a transition: nothing, or
/// write the given text to the store file and deliver `Message::Saved` with
/// the outcome.
#[derive(Debug)]
pub enum Action {
    Idle,
    Save(String),
}

/// The application state: the store once loaded, the draft being
/// edited, display state, and the save guard.
#[derive(Debug)]
pub struct Controller {
    pub data: Option<AppData>,
    pub edit: Record,
    pub layout_debug: bool,
    pub last_tick: Option<Timestamp>,
    pub saving: bool,
    pub dirty: bool,
    pub last_save_error: Option<SaveError>,
}

/// The mathematical shape of the application state.
pub struct ControllerV {
    pub data: Option<Seq<RecordV>>,
    pub edit: RecordV,
    pub layout_debug: bool,
    pub last_tick: Option<Timestamp>,
    pub saving: bool,
    pub dirty: bool,
    pub last_save_error: Option<SaveError>,
}

impl View for Controller {
    type V = ControllerV;

    open spec fn view(&self) -> ControllerV {
        ControllerV {
            data: match self.data {
                None => None,
                Some(d) => Some(d@),
            },
            edit: self.edit@,
            layout_debug: self.layout_debug,
            last_tick: self.last_tick,
            saving: self.saving,
            dirty: self.dirty,
            last_save_error: self.last_save_error,
        }
    }
}

/// The state at startup: no store yet, a fresh draft stamped with the
/// given clock reading, no overlay, no tick seen, no save in flight.
pub open spec fn spec_init(now: Timestamp) -> ControllerV {
    ControllerV {
        data: None,
        edit: spec_fresh_record(now),
        layout_debug: false,
        last_tick: None,
        saving: false,
        dirty: false,
        last_save_error: None,
    }
}

/// What triggering a save does, given the store's new contents: with no
/// save in flight, one is issued with the rendered text and the guard
/// closes; with one in flight, the state is only marked dirty.
pub open spec fn spec_save_step(pre: ControllerV, post: ControllerV, a: Action, records: Seq<RecordV>) -> bool {
    if !pre.saving {
        &&& post.saving
        &&& !post.dirty
        &&& a matches Action::Save(s) && s@ == spec_encode(records)
    } else {
        &&& post.saving
        &&& post.dirty
        &&& a is Idle
    }
}

/// What a commit click does: the draft is stamped with the cause and
/// the click's clock reading; if the store is loaded, the stamped draft
/// is appended to it in commit order, the editor gets a fresh draft,
/// and a save is triggered.
pub open spec fn spec_commit_step(
    pre: ControllerV,
    post: ControllerV,
    a: Action,
    how: HowItWasStopped,
    now: Timestamp,
) -> bool {
    let stamped = RecordV { how, when: now, ..pre.edit };
    match pre.data {
        None => {
            &&& post == ControllerV { edit: stamped, ..pre }
            &&& a is Idle
        },
        Some(records) => {
            let grown = spec_commit(records, stamped);
            &&& post.data == Some(grown)
            &&& post.edit == spec_fresh_record(now)
            &&& post.layout_debug == pre.layout_debug
            &&& post.last_tick == pre.last_tick
            &&& post.last_save_error == pre.last_save_error
            &&& spec_save_step(pre, post, a, grown)
        },
    }
}

/// The whole transition relation: for each event, the exact new state
/// and the action handed back to the surrounding program.
pub open spec fn spec_update(pre: ControllerV, msg: Message, post: ControllerV, a: Action) -> bool {
    match msg {
        Message::DataLoaded(res) => {
            &&& (match res {
                Ok(d) => post == ControllerV { data: Some(d@), ..pre },
                Err(_) => post == ControllerV { data: Some(Seq::<RecordV>::empty()), ..pre },
            })
            &&& a is Idle
        },
        Message::Saved(res) => {
            let noted = ControllerV {
                last_save_error: match res {
                    Ok(_) => None,
                    Err(e) => Some(e),
                },
                ..pre
            };
            if pre.dirty {
                match pre.data {
                    Some(records) => {
                        &&& post == ControllerV { dirty: false, saving: true, ..noted }
                        &&& a matches Action::Save(s) && s@ == spec_encode(records)
                    },
                    None => {
                        &&& post == ControllerV { dirty: false, saving: false, ..noted }
                        &&& a is Idle
                    },
                }
            } else {
                &&& post == ControllerV { saving: false, ..noted }
                &&& a is Idle
            }
        },
        Message::Tick(t) => {
            &&& post == ControllerV { last_tick: Some(t), ..pre }
            &&& a is Idle
        },
        Message::EventOccurred(k) => {
            &&& post == ControllerV {
                layout_debug: if k.is_debug_chord() {
                    !pre.layout_debug
                } else {
                    pre.layout_debug
                },
                ..pre
            }
            &&& a is Idle
        },
        Message::WhatChanged(w) => {
            &&& post == ControllerV { edit: RecordV { what: Some(w), ..pre.edit }, ..pre }
            &&& a is Idle
        },
        Message::DescriptionEdited(s) => {
            &&& post == ControllerV { edit: RecordV { description: s@, ..pre.edit }, ..pre }
            &&& a is Idle
        },
        Message::FrozenToggled { checked, now } => {
            &&& post == ControllerV {
                edit: RecordV {
                    frozen: if checked {
                        Some(now)
                    } else {
                        None
                    },
                    ..pre.edit
                },
                ..pre
            }
            &&& a is Idle
        },
        Message::BusyToggled { checked, now } => {
            &&& post == ControllerV {
                edit: RecordV {
                    busy: if checked {
                        Some(now)
                    } else {
                        None
                    },
                    ..pre.edit
                },
                ..pre
            }
            &&& a is Idle
        },
        Message::CrashClicked { now } => spec_commit_step(
            pre,
            post,
            a,
            HowItWasStopped::SelfCrashed,
            now,
        ),
        Message::KilledClicked { now } => spec_commit_step(
            pre,
            post,
            a,
            HowItWasStopped::ManuallyKilled,
            now,
        ),
        Message::ClearClicked => {
            match pre.data {
                None => {
                    &&& post == pre
                    &&& a is Idle
                },
                Some(_) => {
                    &&& post.data == Some(Seq::<RecordV>::empty())
                    &&& post.edit == pre.edit
                    &&& post.layout_debug == pre.layout_debug
                    &&& post.last_tick == pre.last_tick
                    &&& post.last_save_error == pre.last_save_error
                    &&& spec_save_step(pre, post, a, Seq::empty())
                },
            }
        },
    }
}

impl Controller {
    /// The state at startup. The surrounding program then issues the
    /// one load of the store file and delivers `Message::DataLoaded`.
    pub fn new(now: Timestamp) -> (r: Controller)
        ensures
            r@ == spec_init(now),
    {
        Controller {
            data: None,
            edit: Record::new(now),
            layout_debug: false,
            last_tick: None,
            saving: false,
            dirty: false,
            last_save_error: None,
        }
    }

    /// The window title.
    pub fn title(&self) -> (r: String)
        ensures
            r@ == "Crash recorder"@,
    {
        String::from_str("Crash recorder")
    }

    /// Triggers a save of the current store through the single-slot
    /// guard.
    fn trigger_save(&mut self) -> (a: Action)
        ensures
            old(self)@.data is None ==> final(self)@ == old(self)@ && a is Idle,
            old(self)@.data matches Some(records) ==> {
                &&& spec_save_step(old(self)@, final(self)@, a, records)
                &&& final(self)@ == ControllerV {
                    saving: final(self)@.saving,
                    dirty: final(self)@.dirty,
                    ..old(self)@
                }
            },
    {
        if self.data.is_none() {
            return Action::Idle;
        }
        if self.saving {
            self.dirty = true;
            return Action::Idle;
        }
        self.saving = true;
        self.dirty = false;
        let text = match &self.data {
            Some(d) => encode(d),
            None => {
                assert(false);
                String::new()
            },
        };
        Action::Save(text)
    }

    /// Applies one input event, yielding the action the surrounding
    /// program must perform.
    pub fn update(&mut self, msg: Message) -> (a: Action)
        ensures
            spec_update(old(self)@, msg, final(self)@, a),
    {
        match msg {
            Message::DataLoaded(res) => {
                match res {
                    Ok(d) => {
                        self.data = Some(d);
                    },
                    Err(_) => {
                        self.data = Some(AppData::new());
                    },
                }
                Action::Idle
            },
            Message::Saved(res) => {
                self.last_save_error = match res {
                    Ok(_) => None,
                    Err(e) => Some(e),
                };
                if self.dirty {
                    self.dirty = false;
                    match &self.data {
                        Some(d) => {
                            self.saving = true;
                            Action::Save(encode(d))
                        },
                        None => {
                            self.saving = false;
                            Action::Idle
                        },
                    }
                } else {
                    self.saving = false;
                    Action::Idle
                }
            },
            Message::Tick(t) => {
                self.last_tick = Some(t);
                Action::Idle
            },
            Message::EventOccurred(k) => {
                if k.pressed && k.f11 && !k.shift && !k.control && !k.alt && !k.logo {
                    self.layout_debug = !self.layout_debug;
                }
                Action::Idle
            },
            Message::WhatChanged(w) => {
                self.edit.what = Some(w);
                Action::Idle
            },
            Message::DescriptionEdited(s) => {
                self.edit.description = s;
                Action::Idle
            },
            Message::FrozenToggled { checked, now } => {
                self.edit.frozen = if checked {
                    Some(now)
                } else {
                    None
                };
                Action::Idle
            },
            Message::BusyToggled { checked, now } => {
                self.edit.busy = if checked {
                    Some(now)
                } else {
                    None
                };
                Action::Idle
            },
            Message::CrashClicked { now } => {
                self.edit.how = HowItWasStopped::SelfCrashed;
                self.edit.when = now;
                self.register_entry(now)
            },
            Message::KilledClicked { now } => {
                self.edit.how = HowItWasStopped::ManuallyKilled;
                self.edit.when = now;
                self.register_entry(now)
            },
            Message::ClearClicked => {
                match &mut self.data {
                    Some(d) => {
                        d.clear();
                    },
                    None => {
                        return Action::Idle;
                    },
                }
                self.trigger_save()
            },
        }
    }

    /// Moves the stamped draft into the store, replaces it with a fresh
    /// one, and triggers a save; with no store loaded yet, only the
    /// draft keeps the stamp.
    fn register_entry(&mut self, now: Timestamp) -> (a: Action)
        ensures
            old(self)@.data is None ==> final(self)@ == old(self)@ && a is Idle,
            old(self)@.data matches Some(records) ==> {
                &&& final(self)@.data == Some(spec_commit(records, old(self)@.edit))
                &&& final(self)@.edit == spec_fresh_record(now)
                &&& final(self)@.layout_debug == old(self)@.layout_debug
                &&& final(self)@.last_tick == old(self)@.last_tick
                &&& final(self)@.last_save_error == old(self)@.last_save_error
                &&& spec_save_step(old(self)@, final(self)@, a, spec_commit(records, old(self)@.edit))
            },
    {
        if self.data.is_none() {
            return Action::Idle;
        }
        let finished = self.edit.duplicate();
        self.edit = Record::new(now);
        match &mut self.data {
            Some(d) => {
                d.push_record(finished);
            },
            None => {
                assert(false);
            },
        }
        self.trigger_save()
    }
}

/// Toggle semantics: toggling a capture field on stamps the toggle's
/// clock reading; toggling it off afterwards leaves the field empty
/// again.
pub proof fn lemma_toggle_semantics(
    pre: ControllerV,
    mid: ControllerV,
    post: ControllerV,
    a1: Action,
    a2: Action,
    t1: Timestamp,
    t2: Timestamp,
)
    requires
        spec_update(pre, Message::FrozenToggled { checked: true, now: t1 }, mid, a1),
        spec_update(mid, Message::FrozenToggled { checked: false, now: t2 }, post, a2),
    ensures
        mid.edit.frozen == Some(t1),
        post.edit.frozen == None::<Timestamp>,
{
}

} // verus!
