//! LED feedback on the grid controller: the library keeps the velocity last
//! written to each LED and asks for a write only where that changes.

use vstd::prelude::*;
use crate::mapping::{AppState, LedUpdateRequest, MappingView};

verus! {

pub const LED_OFF: u8 = 0;

pub const LED_GREEN: u8 = 1;

pub const LED_RED: u8 = 3;

pub const LED_ORANGE: u8 = 5;

pub const LED_BLUE_ISH: u8 = 6;

/// One LED write: the MIDI message `0x90, note, velocity`.
#[derive(Clone, Copy, Debug, PartialEq, Eq, Structural)]
pub struct NoteOn {
    pub note: u8,
    pub velocity: u8,
}

/// The note of a grid button; row 0 is the top row of the controller.
pub open spec fn grid_note_at(cell: int) -> u8 {
    ((7 - cell / 8) * 8 + cell % 8) as u8
}

/// The colour a grid LED should show: red where a mapped cell is under a
/// fader override, green where it is only mapped, else off.
pub open spec fn grid_velocity(v: MappingView, r_vis: int, c_vis: int) -> u8 {
    let row = v.lfo_bank * 8 + r_vis;
    let col = v.effect_bank * 8 + c_vis;
    if v.mapped(row, col) {
        if v.overridden(v.lfo_bank, col) {
            LED_RED
        } else {
            LED_GREEN
        }
    } else {
        LED_OFF
    }
}

/// The whole visible grid as it should be, row by row.
pub open spec fn desired_grid(v: MappingView) -> Seq<u8> {
    Seq::new(64, |cell: int| grid_velocity(v, cell / 8, cell % 8))
}

/// The grid as it should be after column `c_vis` alone was reconciled.
pub open spec fn desired_column(v: MappingView, cache: Seq<u8>, c_vis: int) -> Seq<u8> {
    Seq::new(
        64,
        |cell: int|
            if cell % 8 == c_vis {
                grid_velocity(v, cell / 8, c_vis)
            } else {
                cache[cell]
            },
    )
}

/// The bank LEDs as they should be: the current bank lit, the others off.
pub open spec fn desired_banks(current: int, lit: u8) -> Seq<u8> {
    Seq::new(
        4,
        |bank: int|
            if bank == current {
                lit
            } else {
                LED_OFF
            },
    )
}

/// The writes that bring the first `n` LEDs of `cache` to `desired`: one for
/// each LED that differs, in order, and none for the others. LED `i` is
/// written with note `note_of(i)`.
pub open spec fn diff_writes(
    cache: Seq<u8>,
    desired: Seq<u8>,
    note_of: spec_fn(int) -> u8,
    n: nat,
) -> Seq<NoteOn>
    decreases n,
{
    if n == 0 {
        Seq::empty()
    } else {
        let i = (n - 1) as int;
        let before = diff_writes(cache, desired, note_of, (n - 1) as nat);
        if cache[i] != desired[i] {
            before.push(NoteOn { note: note_of(i), velocity: desired[i] })
        } else {
            before
        }
    }
}

pub open spec fn lfo_bank_note(bank: int) -> u8 {
    (82 + bank) as u8
}

pub open spec fn effect_bank_note(bank: int) -> u8 {
    (86 + bank) as u8
}

/// The velocities last written to the LEDs of the controller.
pub struct LedState {
    /// The 8x8 grid, row by row from the top.
    pub grid: Vec<u8>,
    pub lfo_banks: Vec<u8>,
    pub effect_banks: Vec<u8>,
}

fn dark(n: usize) -> (v: Vec<u8>)
    ensures
        v@ == Seq::new(n as nat, |i: int| LED_OFF),
{
    let mut v: Vec<u8> = Vec::new();
    let mut i: usize = 0;
    while i < n
        invariant
            i <= n,
            v@.len() == i,
            forall|k: int| 0 <= k < i ==> v@[k] == LED_OFF,
        decreases n - i,
    {
        v.push(LED_OFF);
        i += 1;
    }
    assert(v@ =~= Seq::new(n as nat, |i: int| LED_OFF));
    v
}

impl LedState {
    pub open spec fn wf(&self) -> bool {
        &&& self.grid@.len() == 64
        &&& self.lfo_banks@.len() == 4
        &&& self.effect_banks@.len() == 4
    }

    /// Tests `wf`.
    pub fn is_valid(&self) -> (valid: bool)
        ensures
            valid == self.wf(),
    {
        self.grid.len() == 64 && self.lfo_banks.len() == 4 && self.effect_banks.len() == 4
    }

    /// All LEDs off.
    pub fn new() -> (state: LedState)
        ensures
            state.wf(),
            state.grid@ == Seq::new(64, |i: int| LED_OFF),
            state.lfo_banks@ == Seq::new(4, |i: int| LED_OFF),
            state.effect_banks@ == Seq::new(4, |i: int| LED_OFF),
    {
        LedState { grid: dark(64), lfo_banks: dark(4), effect_banks: dark(4) }
    }

    /// Asks for a write to a grid LED if its velocity changes. A position
    /// outside the grid asks for nothing.
    pub fn send_grid_note_if_changed(
        &mut self,
        out: &mut Vec<NoteOn>,
        r_vis: usize,
        c_vis: usize,
        desired_velocity: u8,
    )
        requires
            old(self).wf(),
        ensures
            final(self).wf(),
            final(self).lfo_banks@ == old(self).lfo_banks@,
            final(self).effect_banks@ == old(self).effect_banks@,
            r_vis < 8 && c_vis < 8 ==> final(self).grid@ == old(self).grid@.update(
                r_vis * 8 + c_vis,
                desired_velocity,
            ),
            r_vis < 8 && c_vis < 8 && old(self).grid@[r_vis * 8 + c_vis] != desired_velocity
                ==> final(out)@ == old(out)@.push(
                NoteOn { note: grid_note_at(r_vis * 8 + c_vis), velocity: desired_velocity },
            ),
            r_vis < 8 && c_vis < 8 && old(self).grid@[r_vis * 8 + c_vis] == desired_velocity
                ==> final(out)@ == old(out)@,
            !(r_vis < 8 && c_vis < 8) ==> final(self).grid@ == old(self).grid@ && final(out)@
                == old(out)@,
    {
        if r_vis < 8 && c_vis < 8 {
            let cell: usize = r_vis * 8 + c_vis;
            if self.grid[cell] != desired_velocity {
                let note: u8 = ((7 - r_vis) * 8 + c_vis) as u8;
                out.push(NoteOn { note, velocity: desired_velocity });
                self.grid.set(cell, desired_velocity);
            } else {
                assert(self.grid@ =~= old(self).grid@.update(cell as int, desired_velocity));
            }
        }
    }

    /// Asks for a write to the LED of LFO bank `bank_idx` (notes 82 to 85)
    /// if its velocity changes.
    pub fn send_lfo_bank_note_if_changed(
        &mut self,
        out: &mut Vec<NoteOn>,
        bank_idx: usize,
        desired_velocity: u8,
    )
        requires
            old(self).wf(),
        ensures
            final(self).wf(),
            final(self).grid@ == old(self).grid@,
            final(self).effect_banks@ == old(self).effect_banks@,
            bank_idx < 4 ==> final(self).lfo_banks@ == old(self).lfo_banks@.update(
                bank_idx as int,
                desired_velocity,
            ),
            bank_idx < 4 && old(self).lfo_banks@[bank_idx as int] != desired_velocity ==> final(out)@ == old(out)@.push(
                NoteOn { note: lfo_bank_note(bank_idx as int), velocity: desired_velocity },
            ),
            bank_idx < 4 && old(self).lfo_banks@[bank_idx as int] == desired_velocity ==> final(out)@ == old(out)@,
            bank_idx >= 4 ==> final(self).lfo_banks@ == old(self).lfo_banks@ && final(out)@ == old(out)@,
    {
        if bank_idx < 4 {
            if self.lfo_banks[bank_idx] != desired_velocity {
                let note: u8 = (82 + bank_idx) as u8;
                out.push(NoteOn { note, velocity: desired_velocity });
                self.lfo_banks.set(bank_idx, desired_velocity);
            } else {
                assert(self.lfo_banks@ =~= old(self).lfo_banks@.update(
                    bank_idx as int,
                    desired_velocity,
                ));
            }
        }
    }

    /// Asks for a write to the LED of effect bank `bank_idx` (notes 86 to
    /// 89) if its velocity changes.
    pub fn send_effect_bank_note_if_changed(
        &mut self,
        out: &mut Vec<NoteOn>,
        bank_idx: usize,
        desired_velocity: u8,
    )
        requires
            old(self).wf(),
        ensures
            final(self).wf(),
            final(self).grid@ == old(self).grid@,
            final(self).lfo_banks@ == old(self).lfo_banks@,
            bank_idx < 4 ==> final(self).effect_banks@ == old(self).effect_banks@.update(
                bank_idx as int,
                desired_velocity,
            ),
            bank_idx < 4 && old(self).effect_banks@[bank_idx as int] != desired_velocity
                ==> final(out)@ == old(out)@.push(
                NoteOn { note: effect_bank_note(bank_idx as int), velocity: desired_velocity },
            ),
            bank_idx < 4 && old(self).effect_banks@[bank_idx as int] == desired_velocity
                ==> final(out)@ == old(out)@,
            bank_idx >= 4 ==> final(self).effect_banks@ == old(self).effect_banks@ && final(out)@
                == old(out)@,
    {
        if bank_idx < 4 {
            if self.effect_banks[bank_idx] != desired_velocity {
                let note: u8 = (86 + bank_idx) as u8;
                out.push(NoteOn { note, velocity: desired_velocity });
                self.effect_banks.set(bank_idx, desired_velocity);
            } else {
                assert(self.effect_banks@ =~= old(self).effect_banks@.update(
                    bank_idx as int,
                    desired_velocity,
                ));
            }
        }
    }
}

/// The writes that switch off every LED of the controller: notes 0 to 95.
pub fn clear_all_leds() -> (out: Vec<NoteOn>)
    ensures
        out@ == Seq::new(96, |i: int| NoteOn { note: i as u8, velocity: LED_OFF }),
{
    let mut out: Vec<NoteOn> = Vec::new();
    let mut note: u8 = 0;
    while note < 96
        invariant
            note <= 96,
            out@.len() == note,
            forall|i: int| 0 <= i < note ==> out@[i] == (NoteOn { note: i as u8, velocity: LED_OFF }),
        decreases 96 - note,
    {
        out.push(NoteOn { note, velocity: LED_OFF });
        note += 1;
    }
    assert(out@ =~= Seq::new(96, |i: int| NoteOn { note: i as u8, velocity: LED_OFF }));
    out
}

/// The colour of the grid LED at visible `(r_vis, c_vis)`.
pub fn grid_led(state: &AppState, r_vis: usize, c_vis: usize) -> (velocity: u8)
    requires
        state.wf(),
        r_vis < 8,
        c_vis < 8,
    ensures
        velocity == grid_velocity(state@, r_vis as int, c_vis as int),
{
    let bank: usize = state.current_lfo_bank;
    let row: usize = bank * 8 + r_vis;
    let col: usize = state.current_effect_bank * 8 + c_vis;
    let is_fader_override: bool = state.fader_override_active[bank * 32 + col];
    let is_mapped: bool = state.mapping[row * 32 + col];
    if is_fader_override && is_mapped {
        LED_RED
    } else if is_mapped {
        LED_GREEN
    } else {
        LED_OFF
    }
}

/// Reconciles the bank LEDs: the current LFO bank orange, the current
/// effect bank blue, all others off.
pub fn update_bank_select_leds(state: &AppState, led_state: &mut LedState, out: &mut Vec<NoteOn>)
    requires
        state.wf(),
        old(led_state).wf(),
    ensures
        final(led_state).wf(),
        final(led_state).grid@ == old(led_state).grid@,
        final(led_state).lfo_banks@ == desired_banks(state@.lfo_bank, LED_ORANGE),
        final(led_state).effect_banks@ == desired_banks(state@.effect_bank, LED_BLUE_ISH),
        final(out)@ == old(out)@ + diff_writes(
            old(led_state).lfo_banks@,
            desired_banks(state@.lfo_bank, LED_ORANGE),
            |b: int| lfo_bank_note(b),
            4,
        ) + diff_writes(
            old(led_state).effect_banks@,
            desired_banks(state@.effect_bank, LED_BLUE_ISH),
            |b: int| effect_bank_note(b),
            4,
        ),
{
    let ghost lfo_cache = led_state.lfo_banks@;
    let ghost lfo_want = desired_banks(state@.lfo_bank, LED_ORANGE);
    let ghost lfo_notes = |b: int| lfo_bank_note(b);
    let ghost start = out@;
    let mut i: usize = 0;
    while i < 4
        invariant
            i <= 4,
            state.wf(),
            led_state.wf(),
            lfo_want == desired_banks(state@.lfo_bank, LED_ORANGE),
            lfo_notes == (|b: int| lfo_bank_note(b)),
            led_state.grid@ == old(led_state).grid@,
            led_state.effect_banks@ == old(led_state).effect_banks@,
            forall|k: int| 0 <= k < 4 ==> led_state.lfo_banks@[k] == (if k < i {
                lfo_want[k]
            } else {
                lfo_cache[k]
            }),
            out@ == start + diff_writes(lfo_cache, lfo_want, lfo_notes, i as nat),
        decreases 4 - i,
    {
        let velocity: u8 = if i == state.current_lfo_bank {
            LED_ORANGE
        } else {
            LED_OFF
        };
        let ghost prev = out@;
        led_state.send_lfo_bank_note_if_changed(out, i, velocity);
        proof {
            let d = diff_writes(lfo_cache, lfo_want, lfo_notes, i as nat);
            let d1 = diff_writes(lfo_cache, lfo_want, lfo_notes, (i + 1) as nat);
            if lfo_cache[i as int] != lfo_want[i as int] {
                assert(start + d1 =~= (start + d).push(
                    NoteOn { note: lfo_bank_note(i as int), velocity },
                ));
            }
        }
        i += 1;
    }
    assert(led_state.lfo_banks@ =~= lfo_want);
    let ghost effect_cache = led_state.effect_banks@;
    let ghost effect_want = desired_banks(state@.effect_bank, LED_BLUE_ISH);
    let ghost effect_notes = |b: int| effect_bank_note(b);
    let ghost middle = out@;
    let mut j: usize = 0;
    while j < 4
        invariant
            j <= 4,
            state.wf(),
            led_state.wf(),
            effect_want == desired_banks(state@.effect_bank, LED_BLUE_ISH),
            effect_notes == (|b: int| effect_bank_note(b)),
            led_state.grid@ == old(led_state).grid@,
            led_state.lfo_banks@ == lfo_want,
            forall|k: int| 0 <= k < 4 ==> led_state.effect_banks@[k] == (if k < j {
                effect_want[k]
            } else {
                effect_cache[k]
            }),
            out@ == middle + diff_writes(effect_cache, effect_want, effect_notes, j as nat),
        decreases 4 - j,
    {
        let velocity: u8 = if j == state.current_effect_bank {
            LED_BLUE_ISH
        } else {
            LED_OFF
        };
        led_state.send_effect_bank_note_if_changed(out, j, velocity);
        proof {
            let d = diff_writes(effect_cache, effect_want, effect_notes, j as nat);
            let d1 = diff_writes(effect_cache, effect_want, effect_notes, (j + 1) as nat);
            if effect_cache[j as int] != effect_want[j as int] {
                assert(middle + d1 =~= (middle + d).push(
                    NoteOn { note: effect_bank_note(j as int), velocity },
                ));
            }
        }
        j += 1;
    }
    assert(led_state.effect_banks@ =~= effect_want);
    assert(out@ =~= start + diff_writes(lfo_cache, lfo_want, lfo_notes, 4) + diff_writes(
        effect_cache,
        effect_want,
        effect_notes,
        4,
    ));
}

/// LEDs that already show what they should take no write.
pub proof fn lemma_diff_writes_skips_equal(
    cache: Seq<u8>,
    desired: Seq<u8>,
    note_of: spec_fn(int) -> u8,
    from: nat,
    to: nat,
)
    requires
        from <= to,
        forall|i: int| from <= i < to ==> cache[i] == desired[i],
    ensures
        diff_writes(cache, desired, note_of, to) == diff_writes(cache, desired, note_of, from),
    decreases to - from,
{
    if from < to {
        lemma_diff_writes_skips_equal(cache, desired, note_of, from, (to - 1) as nat);
    }
}

/// Every write carries the velocity the LED should have, and goes to an LED
/// that did not have it.
pub proof fn lemma_diff_writes_only_changes(
    cache: Seq<u8>,
    desired: Seq<u8>,
    note_of: spec_fn(int) -> u8,
    n: nat,
    k: int,
)
    requires
        0 <= k < diff_writes(cache, desired, note_of, n).len(),
    ensures
        diff_writes(cache, desired, note_of, n).len() <= n,
        exists|i: int|
            0 <= i < n && cache[i] != desired[i] && #[trigger] note_of(i) == diff_writes(
                cache,
                desired,
                note_of,
                n,
            )[k].note && diff_writes(cache, desired, note_of, n)[k].velocity == desired[i],
    decreases n,
{
    let i = (n - 1) as int;
    let before = diff_writes(cache, desired, note_of, (n - 1) as nat);
    lemma_diff_writes_length(cache, desired, note_of, (n - 1) as nat);
    if k < before.len() {
        lemma_diff_writes_only_changes(cache, desired, note_of, (n - 1) as nat, k);
        let w = choose|w: int|
            0 <= w < n - 1 && cache[w] != desired[w] && #[trigger] note_of(w) == before[k].note
                && before[k].velocity == desired[w];
        assert(note_of(w) == diff_writes(cache, desired, note_of, n)[k].note);
    } else {
        assert(note_of(i) == diff_writes(cache, desired, note_of, n)[k].note);
    }
}

/// There is at most one write per LED.
pub proof fn lemma_diff_writes_length(
    cache: Seq<u8>,
    desired: Seq<u8>,
    note_of: spec_fn(int) -> u8,
    n: nat,
)
    ensures
        diff_writes(cache, desired, note_of, n).len() <= n,
    decreases n,
{
    if n > 0 {
        lemma_diff_writes_length(cache, desired, note_of, (n - 1) as nat);
    }
}

/// Reconciles the 8x8 grid with the mapping as seen through the current banks.
pub fn refresh_grid_leds(state: &AppState, led_state: &mut LedState, out: &mut Vec<NoteOn>)
    requires
        state.wf(),
        old(led_state).wf(),
    ensures
        final(led_state).wf(),
        final(led_state).lfo_banks@ == old(led_state).lfo_banks@,
        final(led_state).effect_banks@ == old(led_state).effect_banks@,
        final(led_state).grid@ == desired_grid(state@),
        final(out)@ == old(out)@ + diff_writes(
            old(led_state).grid@,
            desired_grid(state@),
            |cell: int| grid_note_at(cell),
            64,
        ),
{
    let ghost cache = led_state.grid@;
    let ghost want = desired_grid(state@);
    let ghost notes = |cell: int| grid_note_at(cell);
    let ghost start = out@;
    let mut cell: usize = 0;
    while cell < 64
        invariant
            cell <= 64,
            state.wf(),
            led_state.wf(),
            want == desired_grid(state@),
            notes == (|cell: int| grid_note_at(cell)),
            led_state.lfo_banks@ == old(led_state).lfo_banks@,
            led_state.effect_banks@ == old(led_state).effect_banks@,
            forall|k: int| 0 <= k < 64 ==> led_state.grid@[k] == (if k < cell {
                want[k]
            } else {
                cache[k]
            }),
            out@ == start + diff_writes(cache, want, notes, cell as nat),
        decreases 64 - cell,
    {
        let r_vis: usize = cell / 8;
        let c_vis: usize = cell % 8;
        let velocity: u8 = grid_led(state, r_vis, c_vis);
        led_state.send_grid_note_if_changed(out, r_vis, c_vis, velocity);
        proof {
            let d = diff_writes(cache, want, notes, cell as nat);
            let d1 = diff_writes(cache, want, notes, (cell + 1) as nat);
            assert(r_vis * 8 + c_vis == cell);
            if cache[cell as int] != want[cell as int] {
                assert(start + d1 =~= (start + d).push(
                    NoteOn { note: grid_note_at(cell as int), velocity },
                ));
            }
        }
        cell += 1;
    }
    assert(led_state.grid@ =~= want);
}

/// The visible column that shows effect output `idx`, if the current effect
/// bank shows it at all.
pub open spec fn visible_column(v: MappingView, idx: int) -> Option<int> {
    if v.effect_bank * 8 <= idx < v.effect_bank * 8 + 8 {
        Some(idx % 8)
    } else {
        None
    }
}

/// Reconciles the one grid column that shows effect output
/// `actual_effect_idx`; an output outside the current effect bank has no
/// column and nothing is done.
pub fn refresh_fader_column_leds(
    state: &AppState,
    actual_effect_idx: usize,
    led_state: &mut LedState,
    out: &mut Vec<NoteOn>,
)
    requires
        state.wf(),
        old(led_state).wf(),
    ensures
        final(led_state).wf(),
        final(led_state).lfo_banks@ == old(led_state).lfo_banks@,
        final(led_state).effect_banks@ == old(led_state).effect_banks@,
        match visible_column(state@, actual_effect_idx as int) {
            Some(c_vis) => {
                &&& final(led_state).grid@ == desired_column(state@, old(led_state).grid@, c_vis)
                &&& final(out)@ == old(out)@ + diff_writes(
                    old(led_state).grid@,
                    desired_column(state@, old(led_state).grid@, c_vis),
                    |cell: int| grid_note_at(cell),
                    64,
                )
            },
            None => final(led_state).grid@ == old(led_state).grid@ && final(out)@ == old(out)@,
        },
{
    let first: usize = state.current_effect_bank * 8;
    if !(actual_effect_idx >= first && actual_effect_idx < first + 8) {
        return ;
    }
    let c_vis: usize = actual_effect_idx % 8;
    let ghost cache = led_state.grid@;
    let ghost want = desired_column(state@, cache, c_vis as int);
    let ghost notes = |cell: int| grid_note_at(cell);
    let ghost start = out@;
    let mut r_vis: usize = 0;
    while r_vis < 8
        invariant
            r_vis <= 8,
            c_vis < 8,
            state.wf(),
            led_state.wf(),
            cache.len() == 64,
            want == desired_column(state@, cache, c_vis as int),
            notes == (|cell: int| grid_note_at(cell)),
            led_state.lfo_banks@ == old(led_state).lfo_banks@,
            led_state.effect_banks@ == old(led_state).effect_banks@,
            forall|k: int| 0 <= k < 64 ==> led_state.grid@[k] == (if k < r_vis * 8 {
                want[k]
            } else {
                cache[k]
            }),
            out@ == start + diff_writes(cache, want, notes, (r_vis * 8) as nat),
        decreases 8 - r_vis,
    {
        let velocity: u8 = grid_led(state, r_vis, c_vis);
        led_state.send_grid_note_if_changed(out, r_vis, c_vis, velocity);
        proof {
            let cell = (r_vis * 8 + c_vis) as int;
            let d0 = diff_writes(cache, want, notes, (r_vis * 8) as nat);
            let d = diff_writes(cache, want, notes, cell as nat);
            let d1 = diff_writes(cache, want, notes, (cell + 1) as nat);
            let d8 = diff_writes(cache, want, notes, (r_vis * 8 + 8) as nat);
            lemma_diff_writes_skips_equal(cache, want, notes, (r_vis * 8) as nat, cell as nat);
            lemma_diff_writes_skips_equal(
                cache,
                want,
                notes,
                (cell + 1) as nat,
                (r_vis * 8 + 8) as nat,
            );
            assert(want[cell] == velocity);
            if cache[cell] != want[cell] {
                assert(start + d1 =~= (start + d).push(
                    NoteOn { note: grid_note_at(cell), velocity },
                ));
            }
            assert forall|k: int| 0 <= k < 64 implies led_state.grid@[k] == (if k < (r_vis + 1)
                * 8 {
                want[k]
            } else {
                cache[k]
            }) by {
                if r_vis * 8 <= k < r_vis * 8 + 8 && k != cell {
                    assert(want[k] == cache[k]);
                }
            }
        }
        r_vis += 1;
    }
    assert(led_state.grid@ =~= want);
}

/// Carries out one request to the LED task and returns the writes to make,
/// in order.
pub fn led_update(request: LedUpdateRequest, state: &AppState, led_state: &mut LedState) -> (out:
    Vec<NoteOn>)
    requires
        state.wf(),
        old(led_state).wf(),
    ensures
        final(led_state).wf(),
        match request {
            LedUpdateRequest::FullRefresh => {
                &&& final(led_state).lfo_banks@ == old(led_state).lfo_banks@
                &&& final(led_state).effect_banks@ == old(led_state).effect_banks@
                &&& final(led_state).grid@ == desired_grid(state@)
                &&& out@ == diff_writes(
                    old(led_state).grid@,
                    desired_grid(state@),
                    |cell: int| grid_note_at(cell),
                    64,
                )
            },
            LedUpdateRequest::BothRefresh => {
                &&& final(led_state).lfo_banks@ == desired_banks(state@.lfo_bank, LED_ORANGE)
                &&& final(led_state).effect_banks@ == desired_banks(
                    state@.effect_bank,
                    LED_BLUE_ISH,
                )
                &&& final(led_state).grid@ == desired_grid(state@)
                &&& out@ == diff_writes(
                    old(led_state).lfo_banks@,
                    desired_banks(state@.lfo_bank, LED_ORANGE),
                    |b: int| lfo_bank_note(b),
                    4,
                ) + diff_writes(
                    old(led_state).effect_banks@,
                    desired_banks(state@.effect_bank, LED_BLUE_ISH),
                    |b: int| effect_bank_note(b),
                    4,
                ) + diff_writes(
                    old(led_state).grid@,
                    desired_grid(state@),
                    |cell: int| grid_note_at(cell),
                    64,
                )
            },
            LedUpdateRequest::FaderColumnRefresh { actual_effect_idx } => {
                &&& final(led_state).lfo_banks@ == old(led_state).lfo_banks@
                &&& final(led_state).effect_banks@ == old(led_state).effect_banks@
                &&& match visible_column(state@, actual_effect_idx as int) {
                    Some(c_vis) => {
                        &&& final(led_state).grid@ == desired_column(
                            state@,
                            old(led_state).grid@,
                            c_vis,
                        )
                        &&& out@ == diff_writes(
                            old(led_state).grid@,
                            desired_column(state@, old(led_state).grid@, c_vis),
                            |cell: int| grid_note_at(cell),
                            64,
                        )
                    },
                    None => final(led_state).grid@ == old(led_state).grid@ && out@.len() == 0,
                }
            },
        },
{
    let mut out: Vec<NoteOn> = Vec::new();
    match request {
        LedUpdateRequest::FullRefresh => {
            refresh_grid_leds(state, led_state, &mut out);
        },
        LedUpdateRequest::BothRefresh => {
            update_bank_select_leds(state, led_state, &mut out);
            refresh_grid_leds(state, led_state, &mut out);
        },
        LedUpdateRequest::FaderColumnRefresh { actual_effect_idx } => {
            refresh_fader_column_leds(state, actual_effect_idx, led_state, &mut out);
        },
    }
    out
}

} // verus!
