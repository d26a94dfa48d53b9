use vstd::prelude::*;
use std::collections::VecDeque;
use crate::dk::DK;
use crate::error::Error;
use crate::key::Key;
use crate::message::Message;
use crate::status::{Status, STATUS_MESSAGE_MS};
use crate::target::Target;
use crate::view::ViewKey;
use crate::view_map::{
    choices_status, dispatch_checked, dispatch_ok, dispatched, focus_chain_ok, keys_handled, keys_text, opens_file, push_sequence,
    resolve_spec, HandleKey, Resolved, ViewMap,
};

verus! {

/// What one step of handing the pending inputs to the views did.
pub enum PumpStep {
    /// Nothing was pending.
    Idle,
    /// An input was taken apart or put back; more may follow.
    Continue,
    /// A message was delivered; the status it gave.
    Delivered(Status),
    /// A message was delivered and gave an error.
    Failed(Error),
    /// The document view under the key was asked to open the named file,
    /// which the caller reads and hands to `ViewMap::open_doc`.
    Open(ViewKey, String),
    /// The keys typed so far begin several bindings: the status that lists
    /// the keys that may come next.
    Choices(Status),
    /// Going on could stop the editor: the focused view has no chain of
    /// views up to the root, or the message does not pass the check of
    /// `dispatch_checked`, which every message its target cannot take fails.
    Refused,
}

/// The step that a delivery's result gives.
pub open spec fn delivery_step(res: Result<Status, Error>) -> PumpStep {
    match res {
        Ok(st) => PumpStep::Delivered(st),
        Err(e) => PumpStep::Failed(e),
    }
}

/// What one step does to the map (`m0` to `m1`) and to the pending inputs
/// (`d0` to `d1`), and what it returns.
pub open spec fn pump_effect(m0: ViewMap, m1: ViewMap, d0: Seq<DK>, d1: Seq<DK>, r: PumpStep) -> bool {
    if d0.len() == 0 {
        r is Idle && m1 == m0 && d1 == d0
    } else if !focus_chain_ok(m0) {
        r is Refused && m1 == m0 && d1 == d0
    } else {
        exists|h: HandleKey, rest: Seq<DK>|
            #[trigger] keys_handled(m0, d0, rest, h) && match h {
                HandleKey::DK(DK::Key(k)) => r is Continue && m1 == m0 && d1 == seq![DK::Key(k)] + rest,
                HandleKey::DK(DK::Sequence(steps)) => r is Continue && m1 == m0 && d1 == steps@ + rest,
                HandleKey::DK(DK::Dispatch(t, msg)) => {
                    &&& d1 == rest
                    &&& if resolve_spec(m0, t) matches Some(Resolved::View(vk)) && opens_file(m0.view_at(vk), msg) {
                        &&& r matches PumpStep::Open(k, f) && resolve_spec(m0, t) == Some(Resolved::View(k))
                            && f@ == msg->Command_args@[0]->String_0@
                        &&& m1 == m0
                    } else {
                        &&& !dispatch_ok(m0, t, msg) ==> r is Refused
                        &&& (r is Refused <==> !dispatch_checked(m0, t, msg))
                        &&& r is Refused ==> m1 == m0
                        &&& !(r is Refused) ==> exists|res: Result<Status, Error>|
                            #[trigger] dispatched(m0, m1, t, msg, res) && delivery_step(res) == r
                    }
                },
                HandleKey::Choices(c) => {
                    &&& r matches PumpStep::Choices(Status::Message { message, duration_ms }) && message@
                        == "Valid next bindings: ["@ + keys_text(c@) + "]"@ && duration_ms == STATUS_MESSAGE_MS
                    &&& m1 == m0
                    &&& d1 == rest
                },
            }
    }
}

/// Hands the next pending input to the views (see `pump_effect`): a key
/// that a binding makes of the typed keys goes back to the front of the
/// pending inputs, a sequence is spread out there, a message is
/// delivered, and a file to open is handed to the caller.
pub fn pump_step(view_map: &mut ViewMap, dks: &mut VecDeque<DK>) -> (r: PumpStep)
    requires
        old(view_map).wf(),
    ensures
        final(view_map).wf(),
        pump_effect(*old(view_map), *final(view_map), old(dks)@, final(dks)@, r),
{
    if dks.len() == 0 {
        return PumpStep::Idle;
    }
    if !view_map.focus_chain_is_ok() {
        return PumpStep::Refused;
    }
    let ghost m0 = *view_map;
    let ghost d0 = dks@;
    let h = view_map.handle_keys(dks);
    let ghost rest = dks@;
    let ghost hg = h;
    assert(keys_handled(m0, d0, rest, hg));
    match h {
        HandleKey::DK(dk) => match dk {
            DK::Key(k) => {
                dks.push_front(DK::Key(k));
                assert(dks@ =~= seq![DK::Key(k)] + rest);
                PumpStep::Continue
            },
            DK::Sequence(steps) => {
                push_sequence(dks, steps);
                PumpStep::Continue
            },
            DK::Dispatch(t, msg) => match view_map.open_request(&t, &msg) {
                Some((vk, f)) => PumpStep::Open(vk, f),
                None => {
                    if view_map.dispatch_is_safe(&t, &msg) {
                        let res = view_map.dispatch(t, msg);
                        let ghost rg = res;
                        let r = match res {
                            Ok(st) => PumpStep::Delivered(st),
                            Err(e) => PumpStep::Failed(e),
                        };
                        assert(delivery_step(rg) == r);
                        r
                    } else {
                        PumpStep::Refused
                    }
                },
            },
        },
        HandleKey::Choices(c) => PumpStep::Choices(choices_status(&c)),
    }
}

/// The pending inputs wait for a key: there are none, or the first is a
/// key.
pub fn wants_input(dks: &VecDeque<DK>) -> (b: bool)
    ensures
        b == (dks@.len() == 0 || dks@[0] is Key),
{
    if dks.len() == 0 {
        true
    } else {
        match &dks[0] {
            DK::Key(_) => true,
            _ => false,
        }
    }
}

/// The timer that ends an unfinished run of keys: off, running, or run
/// out.
#[derive(Clone, Copy, Debug, PartialEq, Eq, Structural)]
pub enum KeyTimer {
    Off,
    Running,
    Expired,
}

/// What to do with the timer.
#[derive(Clone, Copy, Debug, PartialEq, Eq, Structural)]
pub enum TimerChange {
    Start,
    Stop,
    Keep,
}

/// Takes a read key, or notes that none came, while the pending inputs
/// wait for one: a key joins the pending inputs and starts the timer; with
/// no key and the timer off there is nothing to do; with nothing pending
/// the timer stops; an unfinished run of keys whose timer ran out is ended
/// by a `NoKey`. Returns whether the pending inputs are to be handed to the
/// views, and what to do with the timer.
pub fn after_input(dks: &mut VecDeque<DK>, key: Option<Key>, timer: KeyTimer) -> (r: (bool, TimerChange))
    ensures
        match key {
            Some(k) => r == (true, TimerChange::Start) && final(dks)@ == old(dks)@.push(DK::Key(k)),
            None => match timer {
                KeyTimer::Off => r == (false, TimerChange::Keep) && final(dks)@ == old(dks)@,
                _ => if old(dks)@.len() == 0 {
                    r == (false, TimerChange::Stop) && final(dks)@ == old(dks)@
                } else if timer == KeyTimer::Expired {
                    r == (true, TimerChange::Stop) && final(dks)@ == old(dks)@.push(DK::Key(Key::NoKey))
                } else {
                    r == (false, TimerChange::Keep) && final(dks)@ == old(dks)@
                },
            },
        },
{
    match key {
        Some(k) => {
            dks.push_back(DK::Key(k));
            (true, TimerChange::Start)
        },
        None => match timer {
            KeyTimer::Off => (false, TimerChange::Keep),
            _ => {
                if dks.len() == 0 {
                    (false, TimerChange::Stop)
                } else if timer == KeyTimer::Expired {
                    dks.push_back(DK::Key(Key::NoKey));
                    (true, TimerChange::Stop)
                } else {
                    (false, TimerChange::Keep)
                }
            },
        },
    }
}

} // verus!
