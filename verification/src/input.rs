//! Turning input-device events into button events, through the keycode
//! table of the traits.

use vstd::prelude::*;
use crate::platform::{Key, KeyEvent};

verus! {

/// What an input device reported: whether it is a key event, its code and
/// its value (0 release, 1 press, 2 autorepeat).
#[derive(Debug, Clone, Copy, PartialEq, Eq, Structural)]
pub struct RawEvent {
    pub is_key: bool,
    pub code: u16,
    pub value: i32,
}

/// What the polling loop does after one event.
#[derive(Debug, Clone, Copy, PartialEq, Eq, Structural)]
pub enum PollStep {
    /// Hand this button event to the caller.
    Deliver(KeyEvent),
    /// Wait for the next event at once.
    Next,
    /// Sleep briefly, then wait for the next event.
    Sleep,
}

/// The button of the first entry of `table` with keycode `code`.
pub open spec fn lookup_key(table: Seq<(u16, Key)>, code: u16) -> Option<Key>
    decreases table.len(),
{
    if table.len() == 0 {
        None
    } else if table[0].0 == code {
        Some(table[0].1)
    } else {
        lookup_key(table.drop_first(), code)
    }
}

/// Looking a code up in a keycode table gives the button of the first
/// entry with that code, wherever it stands in the table, and nothing
/// where no entry has that code.
pub proof fn lemma_lookup_key(table: Seq<(u16, Key)>, code: u16, i: int)
    ensures
        0 <= i < table.len() && table[i].0 == code && (forall|j: int|
            0 <= j < i ==> table[j].0 != code) ==> lookup_key(table, code) == Some(table[i].1),
        (forall|j: int| 0 <= j < table.len() ==> table[j].0 != code) ==> lookup_key(table, code)
            is None,
    decreases table.len(),
{
    if table.len() > 0 {
        let rest = table.drop_first();
        lemma_lookup_key(rest, code, i - 1);
        if 0 < i < table.len() && table[i].0 == code && (forall|j: int|
            0 <= j < i ==> table[j].0 != code) {
            assert(table[0].0 != code);
            assert(rest[i - 1] == table[i]);
            assert forall|j: int| 0 <= j < i - 1 implies rest[j].0 != code by {
                assert(rest[j] == table[j + 1]);
            }
        }
        if forall|j: int| 0 <= j < table.len() ==> table[j].0 != code {
            assert(table[0].0 != code);
            assert forall|j: int| 0 <= j < rest.len() implies rest[j].0 != code by {
                assert(rest[j] == table[j + 1]);
            }
        }
    }
}

/// The step that follows an event, or a failed read (`None`): a key event
/// whose code the table knows is delivered as a release, press or
/// autorepeat by its value, or skipped at once for any other value; every
/// other event, and a failed read, is followed by a short sleep.
pub open spec fn poll_step_spec(table: Seq<(u16, Key)>, event: Option<RawEvent>) -> PollStep {
    match event {
        Some(e) => if e.is_key && lookup_key(table, e.code) is Some {
            let key = lookup_key(table, e.code)->0;
            if e.value == 0 {
                PollStep::Deliver(KeyEvent::Released(key))
            } else if e.value == 1 {
                PollStep::Deliver(KeyEvent::Pressed(key))
            } else if e.value == 2 {
                PollStep::Deliver(KeyEvent::Autorepeat(key))
            } else {
                PollStep::Next
            }
        } else {
            PollStep::Sleep
        },
        None => PollStep::Sleep,
    }
}

/// A key event whose code the table holds is delivered as a release, press
/// or autorepeat of the button of the first entry with that code, by its
/// value 0, 1 or 2.
pub proof fn lemma_key_event_delivered(table: Seq<(u16, Key)>, e: RawEvent, i: int)
    requires
        e.is_key,
        0 <= i < table.len(),
        table[i].0 == e.code,
        forall|j: int| 0 <= j < i ==> table[j].0 != e.code,
    ensures
        e.value == 0 ==> poll_step_spec(table, Some(e)) == PollStep::Deliver(
            KeyEvent::Released(table[i].1),
        ),
        e.value == 1 ==> poll_step_spec(table, Some(e)) == PollStep::Deliver(
            KeyEvent::Pressed(table[i].1),
        ),
        e.value == 2 ==> poll_step_spec(table, Some(e)) == PollStep::Deliver(
            KeyEvent::Autorepeat(table[i].1),
        ),
{
    lemma_lookup_key(table, e.code, i);
}

/// The button of the first entry of `table` with keycode `code`.
pub fn find_key(table: &Vec<(u16, Key)>, code: u16) -> (r: Option<Key>)
    ensures
        r == lookup_key(table@, code),
{
    let mut i: usize = 0;
    assert(table@.skip(0) =~= table@);
    while i < table.len()
        invariant
            0 <= i <= table.len(),
            lookup_key(table@, code) == lookup_key(table@.skip(i as int), code),
        decreases table.len() - i,
    {
        let ghost rest = table@.skip(i as int);
        assert(rest[0] == table@[i as int]);
        if table[i].0 == code {
            return Some(table[i].1);
        }
        assert(rest.drop_first() =~= table@.skip(i + 1));
        i = i + 1;
    }
    None
}

/// The step that follows `event` (`None` for a failed read).
pub fn poll_step(table: &Vec<(u16, Key)>, event: Option<RawEvent>) -> (r: PollStep)
    ensures
        r == poll_step_spec(table@, event),
{
    match event {
        Some(e) => {
            if e.is_key {
                match find_key(table, e.code) {
                    Some(key) => {
                        if e.value == 0 {
                            PollStep::Deliver(KeyEvent::Released(key))
                        } else if e.value == 1 {
                            PollStep::Deliver(KeyEvent::Pressed(key))
                        } else if e.value == 2 {
                            PollStep::Deliver(KeyEvent::Autorepeat(key))
                        } else {
                            PollStep::Next
                        }
                    },
                    None => PollStep::Sleep,
                }
            } else {
                PollStep::Sleep
            }
        },
        None => PollStep::Sleep,
    }
}

} // verus!
verus! {

/// Whether a `/dev/input` entry is an event device: its name starts with
/// `event`.
pub fn is_event_device_name(name: &str) -> (r: bool)
    ensures
        r == (name@.len() >= 5 && name@.take(5) == "event"@),
{
    let c = crate::text::chars_of(name);
    let prefix = crate::text::chars_of("event");
    if c.len() < prefix.len() {
        proof {
            reveal_strlit("event");
        }
        return false;
    }
    proof {
        reveal_strlit("event");
    }
    let r = crate::text::range_eq(&c, 0, prefix.len(), &prefix);
    assert(c@.subrange(0, 5) =~= c@.take(5));
    r
}

} // verus!
