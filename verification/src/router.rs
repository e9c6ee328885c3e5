//! Pointer and keyboard routing state: multi-tap detection, the keyboard
//! focus request, the set of keys that are down, and the rewriting of area
//! handles when the storage they name is replaced.

use crate::area::Area;
use crate::cx::{Cx, CxPerFinger, CxState, TapCount};
use crate::events::{KeyCode, KeyEvent};
use crate::math::Vec2;
use vstd::prelude::*;

verus! {

/// The time, in microseconds, within which a tap continues the previous one.
pub const TAP_INTERVAL: i64 = 500_000;

/// The distance, in thousandths of a unit, within which a tap continues the
/// previous one.
pub const TAP_RADIUS: u32 = 10_000;

/// Whether a tap at `pos` and `time` continues the run that `last` belongs
/// to: less than half a second has passed and the tap is less than ten units
/// away.
pub open spec fn tap_continues(last: TapCount, pos: Vec2, time: i64) -> bool {
    time - last.time < TAP_INTERVAL && pos.closer_than(last.pos, TAP_RADIUS as int)
}

/// The running count of a tap at `pos` and `time` that follows `last`.
pub open spec fn tap_count_after(last: TapCount, pos: Vec2, time: i64) -> int {
    if tap_continues(last, pos, time) {
        last.count + 1
    } else {
        1
    }
}

/// The first index at which `keys` holds a key with code `key_code`, or the
/// length of `keys` when there is none.
pub open spec fn key_index_from(keys: Seq<KeyEvent>, key_code: KeyCode, from: int) -> int
    decreases keys.len() - from,
{
    if from >= keys.len() {
        keys.len() as int
    } else if keys[from].key_code == key_code {
        from
    } else {
        key_index_from(keys, key_code, from + 1)
    }
}

/// Whether a key with code `key_code` is down.
pub open spec fn key_is_down(keys: Seq<KeyEvent>, key_code: KeyCode) -> bool {
    exists|k: int| 0 <= k < keys.len() && (#[trigger] keys[k]).key_code == key_code
}

/// The keys that are down after `key_event` went down: a key that is down
/// already is not added again.
pub open spec fn keys_after_down(keys: Seq<KeyEvent>, key_event: KeyEvent) -> Seq<KeyEvent> {
    if key_is_down(keys, key_event.key_code) {
        keys
    } else {
        keys.push(key_event)
    }
}

/// The keys that are down after the key with code `key_code` went up: the
/// first entry with that code leaves.
pub open spec fn keys_after_up(keys: Seq<KeyEvent>, key_code: KeyCode) -> Seq<KeyEvent> {
    let i = key_index_from(keys, key_code, 0);
    if i < keys.len() {
        keys.remove(i)
    } else {
        keys
    }
}

proof fn lemma_key_index_from(keys: Seq<KeyEvent>, key_code: KeyCode, from: int, i: int)
    requires
        0 <= from <= i <= keys.len(),
        forall|k: int| from <= k < i ==> (#[trigger] keys[k]).key_code != key_code,
        i < keys.len() ==> keys[i].key_code == key_code,
    ensures
        key_index_from(keys, key_code, from) == i,
    decreases i - from,
{
    if from < i {
        lemma_key_index_from(keys, key_code, from + 1, i);
    }
}

/// Whether no two keys that are down have the same code.
pub open spec fn key_codes_distinct(keys: Seq<KeyEvent>) -> bool {
    forall|i: int, j: int|
        0 <= i < keys.len() && 0 <= j < keys.len() && i != j ==> (#[trigger] keys[i]).key_code != (
        #[trigger] keys[j]).key_code
}

/// A key is down once at most: a key that goes down is down afterwards, a
/// key that goes up is not, and no key is ever listed twice.
pub proof fn lemma_keys_down_once(keys: Seq<KeyEvent>, key_event: KeyEvent)
    requires
        key_codes_distinct(keys),
    ensures
        key_codes_distinct(keys_after_down(keys, key_event)),
        key_is_down(keys_after_down(keys, key_event), key_event.key_code),
        key_codes_distinct(keys_after_up(keys, key_event.key_code)),
        !key_is_down(keys_after_up(keys, key_event.key_code), key_event.key_code),
{
    let code = key_event.key_code;
    let down = keys_after_down(keys, key_event);
    if !key_is_down(keys, code) {
        assert(down[keys.len() as int].key_code == code);
        assert forall|i: int, j: int|
            0 <= i < down.len() && 0 <= j < down.len() && i != j implies (#[trigger] down[i]).key_code
            != (#[trigger] down[j]).key_code by {
            if i < keys.len() {
                assert(keys[i].key_code != code);
            }
            if j < keys.len() {
                assert(keys[j].key_code != code);
            }
        }
    }
    lemma_key_index_is_first(keys, code, 0);
    let at = key_index_from(keys, code, 0);
    let up = keys_after_up(keys, code);
    if at < keys.len() {
        assert forall|i: int, j: int|
            0 <= i < up.len() && 0 <= j < up.len() && i != j implies (#[trigger] up[i]).key_code != (
            #[trigger] up[j]).key_code by {
            let oi = if i < at {
                i
            } else {
                i + 1
            };
            let oj = if j < at {
                j
            } else {
                j + 1
            };
            assert(up[i] == keys[oi] && up[j] == keys[oj]);
        }
        assert forall|k: int| 0 <= k < up.len() implies (#[trigger] up[k]).key_code != code by {
            let ok = if k < at {
                k
            } else {
                k + 1
            };
            assert(up[k] == keys[ok]);
            assert(keys[ok].key_code != keys[at].key_code);
        }
    } else {
        assert forall|k: int| 0 <= k < up.len() implies (#[trigger] up[k]).key_code != code by {}
    }
}

proof fn lemma_key_index_is_first(keys: Seq<KeyEvent>, key_code: KeyCode, from: int)
    requires
        0 <= from <= keys.len(),
    ensures
        from <= key_index_from(keys, key_code, from) <= keys.len(),
        forall|k: int|
            from <= k < key_index_from(keys, key_code, from) ==> (#[trigger] keys[k]).key_code
                != key_code,
        key_index_from(keys, key_code, from) < keys.len() ==> keys[key_index_from(
            keys,
            key_code,
            from,
        )].key_code == key_code,
    decreases keys.len() - from,
{
    if from < keys.len() && keys[from].key_code != key_code {
        lemma_key_index_is_first(keys, key_code, from + 1);
    }
}

/// The state of a pointer after storage named `old_area` has been replaced
/// by `new_area`: its capture and its last hover follow.
pub open spec fn finger_rewritten(finger: CxPerFinger, old_area: Area, new_area: Area) -> CxPerFinger {
    CxPerFinger {
        captured: finger.captured.rewritten(old_area, new_area),
        _over_last: finger._over_last.rewritten(old_area, new_area),
        ..finger
    }
}

impl CxState {
    /// The state after every holder of `old_area` has been made to hold
    /// `new_area`: the capture and last hover of each pointer, the drag
    /// area, and the current, previous and requested keyboard focus.
    pub open spec fn area_refs_updated(self, old_area: Area, new_area: Area) -> CxState {
        CxState {
            fingers: Seq::new(
                self.fingers.len(),
                |i: int| finger_rewritten(self.fingers[i], old_area, new_area),
            ),
            drag_area: self.drag_area.rewritten(old_area, new_area),
            key_focus: self.key_focus.rewritten(old_area, new_area),
            prev_key_focus: self.prev_key_focus.rewritten(old_area, new_area),
            next_key_focus: self.next_key_focus.rewritten(old_area, new_area),
            ..self
        }
    }

    /// The state after pointer `digit` tapped at `pos` and `time`; a pointer
    /// outside the table leaves the state as it is.
    pub open spec fn tap_counted(self, digit: int, pos: Vec2, time: i64) -> CxState {
        if 0 <= digit < self.fingers.len() {
            let last = self.fingers[digit].tap_count;
            CxState {
                fingers: self.fingers.update(
                    digit,
                    CxPerFinger {
                        tap_count: TapCount {
                            pos,
                            time,
                            count: tap_count_after(last, pos, time) as u32,
                        },
                        ..self.fingers[digit]
                    },
                ),
                ..self
            }
        } else {
            self
        }
    }
}

/// Rewriting for `Empty` or `All` changes nothing: they are no references
/// to storage.
pub proof fn lemma_no_rewrite_without_reference(state: CxState, old_area: Area, new_area: Area)
    requires
        old_area == Area::Empty || old_area == Area::All,
    ensures
        state.area_refs_updated(old_area, new_area) == state,
{
    assert(state.area_refs_updated(old_area, new_area).fingers =~= state.fingers);
}

/// A rewrite moves every holder of the old area to the new one and leaves
/// every pointer that held neither its capture nor its hover on it
/// untouched.
pub proof fn lemma_rewrite_moves_holders(state: CxState, old_area: Area, new_area: Area, digit: int)
    requires
        old_area.is_reference(),
        0 <= digit < state.fingers.len(),
    ensures
        state.fingers[digit].captured == old_area ==> state.area_refs_updated(
            old_area,
            new_area,
        ).fingers[digit].captured == new_area,
        state.fingers[digit]._over_last == old_area ==> state.area_refs_updated(
            old_area,
            new_area,
        ).fingers[digit]._over_last == new_area,
        state.fingers[digit].captured != old_area && state.fingers[digit]._over_last != old_area
            ==> state.area_refs_updated(old_area, new_area).fingers[digit] == state.fingers[digit],
        state.key_focus == old_area ==> state.area_refs_updated(old_area, new_area).key_focus
            == new_area,
        state.drag_area == old_area ==> state.area_refs_updated(old_area, new_area).drag_area
            == new_area,
        state.area_refs_updated(old_area, new_area).fingers.len() == state.fingers.len(),
{
}

impl Cx {
    /// Counts a tap of pointer `digit` at `pos` and `time` (microseconds):
    /// the count of the previous tap plus one when this one follows it
    /// within half a second and ten units, and 1 otherwise. For a pointer
    /// outside the table the result is 0 and nothing changes.
    pub fn process_tap_count(&mut self, digit: usize, pos: Vec2, time: i64) -> (count: u32)
        requires
            digit < old(self)@.fingers.len() ==> tap_count_after(
                old(self)@.fingers[digit as int].tap_count,
                pos,
                time,
            ) <= u32::MAX,
        ensures
            final(self)@ == old(self)@.tap_counted(digit as int, pos, time),
            digit >= old(self)@.fingers.len() ==> count == 0,
            digit < old(self)@.fingers.len() ==> count == tap_count_after(
                old(self)@.fingers[digit as int].tap_count,
                pos,
                time,
            ),
    {
        if digit >= self.fingers.len() {
            return 0;
        }
        let finger = self.fingers[digit];
        let last = finger.tap_count;
        let elapsed: i128 = time as i128 - last.time as i128;
        let count: u32 = if elapsed < TAP_INTERVAL as i128 && pos.is_closer_than(&last.pos, TAP_RADIUS) {
            last.count + 1
        } else {
            1
        };
        self.fingers.set(
            digit,
            CxPerFinger {
                captured: finger.captured,
                tap_count: TapCount { pos, time, count },
                down_abs_start: finger.down_abs_start,
                down_rel_start: finger.down_rel_start,
                over_last: finger.over_last,
                _over_last: finger._over_last,
            },
        );
        count
    }

    /// Makes every holder of `old_area` hold `new_area`, and returns
    /// `new_area`. `Empty` and `All` are never rewritten.
    pub fn update_area_refs(&mut self, old_area: Area, new_area: Area) -> (area: Area)
        ensures
            area == new_area,
            final(self)@ == old(self)@.area_refs_updated(old_area, new_area),
    {
        let ghost before = self@;
        if old_area == Area::Empty || old_area == Area::All {
            proof {
                lemma_no_rewrite_without_reference(before, old_area, new_area);
            }
            return new_area;
        }
        let mut i: usize = 0;
        while i < self.fingers.len()
            invariant
                i <= self.fingers.len(),
                old_area.is_reference(),
                self.fingers.len() == before.fingers.len(),
                self@ == (CxState { fingers: self@.fingers, ..before }),
                forall|k: int|
                    0 <= k < i ==> #[trigger] self@.fingers[k] == finger_rewritten(
                        before.fingers[k],
                        old_area,
                        new_area,
                    ),
                forall|k: int| i <= k < self.fingers.len() ==> #[trigger] self@.fingers[k] == before.fingers[k],
            decreases self.fingers.len() - i,
        {
            let mut finger = self.fingers[i];
            if finger.captured == old_area {
                finger.captured = new_area;
            }
            if finger._over_last == old_area {
                finger._over_last = new_area;
            }
            self.fingers.set(i, finger);
            i += 1;
        }
        if self.drag_area == old_area {
            self.drag_area = new_area;
        }
        if self.key_focus == old_area {
            self.key_focus = new_area;
        }
        if self.prev_key_focus == old_area {
            self.prev_key_focus = new_area;
        }
        if self.next_key_focus == old_area {
            self.next_key_focus = new_area;
        }
        assert(self@.fingers =~= before.area_refs_updated(old_area, new_area).fingers);
        new_area
    }

    /// Asks for the keyboard focus to move to `focus_area`; the move happens
    /// after the current event has been handled.
    pub fn set_key_focus(&mut self, focus_area: Area)
        ensures
            final(self)@ == (CxState { next_key_focus: focus_area, ..old(self)@ }),
    {
        self.next_key_focus = focus_area;
    }

    /// Asks for the keyboard focus to return to the area that had it before.
    pub fn revert_key_focus(&mut self)
        ensures
            final(self)@ == (CxState { next_key_focus: old(self)@.prev_key_focus, ..old(self)@ }),
    {
        self.next_key_focus = self.prev_key_focus;
    }

    /// Whether `focus_area` has the keyboard focus.
    pub fn has_key_focus(&self, focus_area: Area) -> (r: bool)
        ensures
            r == (self@.key_focus == focus_area),
    {
        self.key_focus == focus_area
    }

    /// Records that a key went down, unless a key with its code is down
    /// already.
    pub fn process_key_down(&mut self, key_event: KeyEvent)
        ensures
            final(self)@ == (CxState {
                keys_down: keys_after_down(old(self)@.keys_down, key_event),
                ..old(self)@
            }),
    {
        let mut i: usize = 0;
        while i < self.keys_down.len()
            invariant
                i <= self.keys_down.len(),
                self@ == old(self)@,
                forall|k: int| 0 <= k < i ==> (#[trigger] self@.keys_down[k]).key_code != key_event.key_code,
            decreases self.keys_down.len() - i,
        {
            if self.keys_down[i].key_code == key_event.key_code {
                assert(self@.keys_down[i as int].key_code == key_event.key_code);
                return ;
            }
            i += 1;
        }
        self.keys_down.push(key_event);
    }

    /// Records that a key went up: the first key with its code that is down
    /// leaves.
    pub fn process_key_up(&mut self, key_event: &KeyEvent)
        ensures
            final(self)@ == (CxState {
                keys_down: keys_after_up(old(self)@.keys_down, key_event.key_code),
                ..old(self)@
            }),
    {
        let mut i: usize = 0;
        while i < self.keys_down.len()
            invariant
                i <= self.keys_down.len(),
                self@ == old(self)@,
                forall|k: int| 0 <= k < i ==> (#[trigger] self@.keys_down[k]).key_code != key_event.key_code,
            decreases self.keys_down.len() - i,
        {
            if self.keys_down[i].key_code == key_event.key_code {
                proof {
                    lemma_key_index_from(self@.keys_down, key_event.key_code, 0, i as int);
                }
                self.keys_down.remove(i);
                return ;
            }
            i += 1;
        }
        proof {
            lemma_key_index_from(self@.keys_down, key_event.key_code, 0, i as int);
        }
    }
}

} // verus!
