//! The LFO-to-effect mapping matrix: which low-frequency oscillator drives
//! which effect output, as set from an 8x8 grid controller with banks and
//! faders.

use vstd::prelude::*;
use crate::text::{chars_of, parse_number, parse_unsigned};

verus! {

pub const NUM_ROWS: usize = 8;

pub const NUM_COLS: usize = 8;

pub const NUM_LFO_BANKS: usize = 4;

pub const NUM_EFFECT_BANKS: usize = 4;

pub const TOTAL_ROWS: usize = 32;

pub const TOTAL_COLS: usize = 32;

/// What the LED task is asked to reconcile.
#[derive(Clone, Copy, Debug, PartialEq, Eq, Structural)]
pub enum LedUpdateRequest {
    /// The 8x8 grid.
    FullRefresh,
    /// The bank LEDs and the grid.
    BothRefresh,
    /// The visible grid column that shows this effect output.
    FaderColumnRefresh { actual_effect_idx: usize },
}

/// The mapping state as plain mathematics. Matrices are stored row by row:
/// cell `(row, col)` of `mapping` is element `row * 32 + col`, cell
/// `(bank, col)` of the fader tables is element `bank * 32 + col`.
pub struct MappingView {
    pub lfo_bank: int,
    pub effect_bank: int,
    pub mapping: Seq<bool>,
    pub fader_active: Seq<bool>,
    pub fader_value: Seq<u8>,
    pub lfo_values: Seq<u32>,
}

impl MappingView {
    pub open spec fn wf(self) -> bool {
        &&& 0 <= self.lfo_bank < 4
        &&& 0 <= self.effect_bank < 4
        &&& self.mapping.len() == 1024
        &&& self.fader_active.len() == 128
        &&& self.fader_value.len() == 128
        &&& self.lfo_values.len() == 32
    }

    /// Whether LFO `row` drives effect `col`.
    pub open spec fn mapped(self, row: int, col: int) -> bool {
        self.mapping[row * 32 + col]
    }

    /// Whether a fader has taken over effect `col` in LFO bank `bank`.
    pub open spec fn overridden(self, bank: int, col: int) -> bool {
        self.fader_active[bank * 32 + col]
    }

    /// The fader position recorded for `(bank, col)`, as the controller sent it.
    pub open spec fn fader(self, bank: int, col: int) -> u8 {
        self.fader_value[bank * 32 + col]
    }

    /// Within one LFO bank, at most one row drives any column.
    pub open spec fn exclusive(self) -> bool {
        forall|r1: int, r2: int, col: int|
            0 <= r1 < 32 && 0 <= r2 < 32 && 0 <= col < 32 && r1 / 8 == r2 / 8 && #[trigger] self.mapped(
                r1,
                col,
            ) && #[trigger] self.mapped(r2, col) ==> r1 == r2
    }

    /// The state at start: banks 0, nothing mapped, no fader active.
    pub open spec fn initial() -> MappingView {
        MappingView {
            lfo_bank: 0,
            effect_bank: 0,
            mapping: Seq::new(1024, |i: int| false),
            fader_active: Seq::new(128, |i: int| false),
            fader_value: Seq::new(128, |i: int| 0u8),
            lfo_values: Seq::new(32, |i: int| 0u32),
        }
    }

    /// A press of the grid button at visible row `r_vis`, column `c_vis`:
    /// the fader override of that column in the current LFO bank ends; the
    /// mapping toggles, and when it turns on, every other row of the current
    /// LFO bank lets go of the column.
    pub open spec fn press_grid(self, r_vis: int, c_vis: int) -> MappingView {
        let row = self.lfo_bank * 8 + r_vis;
        let col = self.effect_bank * 8 + c_vis;
        MappingView {
            fader_active: self.fader_active.update(self.lfo_bank * 32 + col, false),
            mapping: if self.mapped(row, col) {
                self.mapping.update(row * 32 + col, false)
            } else {
                Seq::new(
                    1024,
                    |i: int|
                        if i % 32 == col && i / 32 / 8 == self.lfo_bank {
                            i / 32 == row
                        } else {
                            self.mapping[i]
                        },
                )
            },
            ..self
        }
    }

    /// A fader moved on visible column `c_vis`: it takes over that effect in
    /// the current LFO bank, at the position the controller sent.
    pub open spec fn move_fader(self, c_vis: int, value: u8) -> MappingView {
        let col = self.effect_bank * 8 + c_vis;
        MappingView {
            fader_active: self.fader_active.update(self.lfo_bank * 32 + col, true),
            fader_value: self.fader_value.update(self.lfo_bank * 32 + col, value),
            ..self
        }
    }
}

/// Second byte of a MIDI message, or 0 where it is missing.
pub open spec fn midi_data1(message: Seq<u8>) -> u8 {
    if message.len() > 1 {
        message[1]
    } else {
        0
    }
}

/// Third byte of a MIDI message, or 0 where it is missing.
pub open spec fn midi_data2(message: Seq<u8>) -> u8 {
    if message.len() > 2 {
        message[2]
    } else {
        0
    }
}

/// A note-on on any channel, with a velocity above zero.
pub open spec fn is_note_on(message: Seq<u8>) -> bool {
    message.len() > 0 && message[0] / 16 == 9 && midi_data2(message) > 0
}

/// A control change on any channel.
pub open spec fn is_control_change(message: Seq<u8>) -> bool {
    message.len() > 0 && message[0] / 16 == 11
}

/// The note of the grid button at visible row `r_vis` (0 is the top row)
/// and column `c_vis`.
pub open spec fn grid_note(r_vis: int, c_vis: int) -> int {
    (7 - r_vis) * 8 + c_vis
}

/// What one MIDI message does to the state.
pub open spec fn midi_step(v: MappingView, message: Seq<u8>) -> MappingView {
    let note = midi_data1(message) as int;
    if is_note_on(message) {
        if 82 <= note <= 85 {
            MappingView { lfo_bank: note - 82, ..v }
        } else if 86 <= note <= 89 {
            MappingView { effect_bank: note - 86, ..v }
        } else if note < 64 {
            v.press_grid(7 - note / 8, note % 8)
        } else {
            v
        }
    } else if is_control_change(message) && 48 <= note <= 55 {
        v.move_fader(note - 48, midi_data2(message))
    } else {
        v
    }
}

/// What the LED task is asked to do after one MIDI message.
pub open spec fn midi_request(v: MappingView, message: Seq<u8>) -> Option<LedUpdateRequest> {
    let note = midi_data1(message) as int;
    if is_note_on(message) {
        if 82 <= note <= 89 {
            Some(LedUpdateRequest::BothRefresh)
        } else if note < 64 {
            Some(LedUpdateRequest::FullRefresh)
        } else {
            None
        }
    } else if is_control_change(message) && 48 <= note <= 55 {
        Some(
            LedUpdateRequest::FaderColumnRefresh {
                actual_effect_idx: (v.effect_bank * 8 + note - 48) as usize,
            },
        )
    } else {
        None
    }
}

/// The state shared by the input listeners, the sender and the LED task.
pub struct AppState {
    pub current_lfo_bank: usize,
    pub current_effect_bank: usize,
    /// 32 rows of 32 columns, row by row.
    pub mapping: Vec<bool>,
    /// 4 banks of 32 columns, bank by bank.
    pub fader_override_active: Vec<bool>,
    /// 4 banks of 32 columns: the controller value last received; the level
    /// it stands for is this value divided by 127.
    pub fader_override_value: Vec<u8>,
    /// Most recent sample of each LFO, as the bit pattern of a single-precision
    /// number. The library stores and hands out these bits and never reads them.
    pub latest_lfo_values: Vec<u32>,
}

impl View for AppState {
    type V = MappingView;

    open spec fn view(&self) -> MappingView {
        MappingView {
            lfo_bank: self.current_lfo_bank as int,
            effect_bank: self.current_effect_bank as int,
            mapping: self.mapping@,
            fader_active: self.fader_override_active@,
            fader_value: self.fader_override_value@,
            lfo_values: self.latest_lfo_values@,
        }
    }
}

fn filled_bools(n: usize) -> (v: Vec<bool>)
    ensures
        v@ == Seq::new(n as nat, |i: int| false),
{
    let mut v: Vec<bool> = Vec::new();
    let mut i: usize = 0;
    while i < n
        invariant
            i <= n,
            v@.len() == i,
            forall|k: int| 0 <= k < i ==> !v@[k],
        decreases n - i,
    {
        v.push(false);
        i += 1;
    }
    assert(v@ =~= Seq::new(n as nat, |i: int| false));
    v
}

impl AppState {
    pub open spec fn wf(&self) -> bool {
        self@.wf()
    }

    /// Tests `wf`.
    pub fn is_valid(&self) -> (valid: bool)
        ensures
            valid == self.wf(),
    {
        self.current_lfo_bank < 4 && self.current_effect_bank < 4 && self.mapping.len() == 1024
            && self.fader_override_active.len() == 128 && self.fader_override_value.len() == 128
            && self.latest_lfo_values.len() == 32
    }

    pub fn new() -> (state: AppState)
        ensures
            state@ == MappingView::initial(),
            state.wf(),
    {
        let mut values: Vec<u8> = Vec::new();
        let mut lfos: Vec<u32> = Vec::new();
        let mut i: usize = 0;
        while i < 128
            invariant
                i <= 128,
                values@.len() == i,
                lfos@.len() == (if i < 32 {
                    i as int
                } else {
                    32
                }),
                forall|k: int| 0 <= k < values@.len() ==> values@[k] == 0,
                forall|k: int| 0 <= k < lfos@.len() ==> lfos@[k] == 0,
            decreases 128 - i,
        {
            values.push(0);
            if i < 32 {
                lfos.push(0);
            }
            i += 1;
        }
        let state = AppState {
            current_lfo_bank: 0,
            current_effect_bank: 0,
            mapping: filled_bools(1024),
            fader_override_active: filled_bools(128),
            fader_override_value: values,
            latest_lfo_values: lfos,
        };
        assert(state@.fader_value =~= MappingView::initial().fader_value);
        assert(state@.lfo_values =~= MappingView::initial().lfo_values);
        state
    }

    /// Handles a press of the grid button at visible `(r_vis, c_vis)`.
    pub fn press_grid(&mut self, r_vis: usize, c_vis: usize)
        requires
            old(self).wf(),
            r_vis < 8,
            c_vis < 8,
        ensures
            final(self)@ == old(self)@.press_grid(r_vis as int, c_vis as int),
            final(self).wf(),
    {
        let bank: usize = self.current_lfo_bank;
        let row: usize = bank * 8 + r_vis;
        let col: usize = self.current_effect_bank * 8 + c_vis;
        self.fader_override_active.set(bank * 32 + col, false);
        if self.mapping[row * 32 + col] {
            self.mapping.set(row * 32 + col, false);
        } else {
            let ghost before = self.mapping@;
            let mut r: usize = 0;
            while r < 8
                invariant
                    r <= 8,
                    bank < 4,
                    col < 32,
                    row == bank * 8 + r_vis,
                    r_vis < 8,
                    self.mapping@.len() == 1024,
                    self.current_lfo_bank == old(self).current_lfo_bank,
                    self.current_effect_bank == old(self).current_effect_bank,
                    self.fader_override_active@ == old(self).fader_override_active@.update(
                        bank * 32 + col,
                        false,
                    ),
                    self.fader_override_value@ == old(self).fader_override_value@,
                    self.latest_lfo_values@ == old(self).latest_lfo_values@,
                    forall|i: int|
                        0 <= i < 1024 ==> self.mapping@[i] == (if i % 32 == col && i / 32 / 8
                            == bank && i / 32 % 8 < r {
                            i / 32 == row
                        } else {
                            before[i]
                        }),
                decreases 8 - r,
            {
                let other: usize = bank * 8 + r;
                self.mapping.set(other * 32 + col, other == row);
                r += 1;
            }
            assert(self.mapping@ =~= old(self)@.press_grid(r_vis as int, c_vis as int).mapping);
        }
    }

    /// Handles one message from the controller and says what the LED task
    /// has to reconcile afterwards, if anything.
    pub fn handle_midi(&mut self, message: &[u8]) -> (request: Option<LedUpdateRequest>)
        requires
            old(self).wf(),
        ensures
            final(self)@ == midi_step(old(self)@, message@),
            request == midi_request(old(self)@, message@),
            final(self).wf(),
            old(self)@.exclusive() ==> final(self)@.exclusive(),
    {
        proof {
            if self@.exclusive() {
                lemma_midi_step_keeps_exclusive(self@, message@);
            }
        }
        if message.len() == 0 {
            return None;
        }
        let status: u8 = message[0];
        let data1: u8 = if message.len() > 1 {
            message[1]
        } else {
            0
        };
        let data2: u8 = if message.len() > 2 {
            message[2]
        } else {
            0
        };
        if status / 16 == 9 {
            if data2 > 0 {
                if 82 <= data1 && data1 <= 85 {
                    self.current_lfo_bank = (data1 - 82) as usize;
                    return Some(LedUpdateRequest::BothRefresh);
                } else if 86 <= data1 && data1 <= 89 {
                    self.current_effect_bank = (data1 - 86) as usize;
                    return Some(LedUpdateRequest::BothRefresh);
                } else if data1 < 64 {
                    self.press_grid((7 - data1 / 8) as usize, (data1 % 8) as usize);
                    return Some(LedUpdateRequest::FullRefresh);
                }
            }
            None
        } else if status / 16 == 11 && 48 <= data1 && data1 <= 55 {
            let col: usize = self.current_effect_bank * 8 + (data1 - 48) as usize;
            let cell: usize = self.current_lfo_bank * 32 + col;
            self.fader_override_active.set(cell, true);
            self.fader_override_value.set(cell, data2);
            Some(LedUpdateRequest::FaderColumnRefresh { actual_effect_idx: col })
        } else {
            None
        }
    }
}

/// The state after a run of MIDI messages, handled in order.
pub open spec fn after_messages(v: MappingView, messages: Seq<Seq<u8>>) -> MappingView
    decreases messages.len(),
{
    if messages.len() == 0 {
        v
    } else {
        midi_step(after_messages(v, messages.drop_last()), messages.last())
    }
}

/// No MIDI message breaks the shape of the state.
pub proof fn lemma_midi_step_wf(v: MappingView, message: Seq<u8>)
    requires
        v.wf(),
    ensures
        midi_step(v, message).wf(),
{
}

/// A grid press leaves at most one row per LFO bank on every column.
pub proof fn lemma_press_keeps_exclusive(v: MappingView, r_vis: int, c_vis: int)
    requires
        v.wf(),
        v.exclusive(),
        0 <= r_vis < 8,
        0 <= c_vis < 8,
    ensures
        v.press_grid(r_vis, c_vis).exclusive(),
{
    let w = v.press_grid(r_vis, c_vis);
    let row = v.lfo_bank * 8 + r_vis;
    let col = v.effect_bank * 8 + c_vis;
    assert forall|r1: int, r2: int, c: int|
        0 <= r1 < 32 && 0 <= r2 < 32 && 0 <= c < 32 && r1 / 8 == r2 / 8 && #[trigger] w.mapped(
            r1,
            c,
        ) && #[trigger] w.mapped(r2, c) implies r1 == r2 by {
        assert((r1 * 32 + c) % 32 == c && (r1 * 32 + c) / 32 == r1);
        assert((r2 * 32 + c) % 32 == c && (r2 * 32 + c) / 32 == r2);
        if v.mapped(row, col) {
            assert(v.mapped(r1, c) && v.mapped(r2, c));
        } else if c == col && r1 / 8 == v.lfo_bank {
        } else {
            assert(v.mapped(r1, c) && v.mapped(r2, c));
        }
    }
}

/// Mutual exclusivity is kept by every message the controller can send.
pub proof fn lemma_midi_step_keeps_exclusive(v: MappingView, message: Seq<u8>)
    requires
        v.wf(),
        v.exclusive(),
    ensures
        midi_step(v, message).exclusive(),
{
    let note = midi_data1(message) as int;
    let w = midi_step(v, message);
    if is_note_on(message) && !(82 <= note <= 89) && note < 64 {
        lemma_press_keeps_exclusive(v, 7 - note / 8, note % 8);
    } else {
        assert(w.mapping == v.mapping);
        assert forall|r1: int, r2: int, c: int|
            0 <= r1 < 32 && 0 <= r2 < 32 && 0 <= c < 32 && r1 / 8 == r2 / 8 && #[trigger] w.mapped(
                r1,
                c,
            ) && #[trigger] w.mapped(r2, c) implies r1 == r2 by {
            assert(v.mapped(r1, c) && v.mapped(r2, c));
        }
    }
}

/// Mutual exclusivity: after any sequence of messages from the start state,
/// for every column and every LFO bank at most one row of that bank is
/// mapped to the column.
pub proof fn lemma_exclusive_after_any_messages(messages: Seq<Seq<u8>>)
    ensures
        after_messages(MappingView::initial(), messages).wf(),
        after_messages(MappingView::initial(), messages).exclusive(),
    decreases messages.len(),
{
    if messages.len() > 0 {
        lemma_exclusive_after_any_messages(messages.drop_last());
        let before = after_messages(MappingView::initial(), messages.drop_last());
        lemma_midi_step_wf(before, messages.last());
        lemma_midi_step_keeps_exclusive(before, messages.last());
    }
}

/// What drives an effect output on the next tick of the sender.
#[derive(Clone, Copy, Debug, PartialEq, Eq, Structural)]
pub enum Drive {
    /// A fader holds the output at `value / 127`.
    Fader { bank: usize, value: u8 },
    /// An LFO drives the output with its latest sample.
    Lfo { row: usize, sample: u32 },
    /// Nothing drives the output: it stays at the value last sent.
    Hold,
}

impl MappingView {
    /// The first LFO bank at or after `bank` whose fader has taken over `col`.
    pub open spec fn first_override(self, col: int, bank: int) -> Option<int>
        decreases 4 - bank,
    {
        if bank >= 4 {
            None
        } else if self.overridden(bank, col) {
            Some(bank)
        } else {
            self.first_override(col, bank + 1)
        }
    }

    /// The highest visible row below `r_vis` of the current LFO bank that is
    /// mapped to `col`.
    pub open spec fn top_row(self, col: int, r_vis: int) -> Option<int>
        decreases r_vis,
    {
        if r_vis <= 0 {
            None
        } else if self.mapped(self.lfo_bank * 8 + r_vis - 1, col) {
            Some(r_vis - 1)
        } else {
            self.top_row(col, r_vis - 1)
        }
    }

    /// Faders come first, from bank 0 upward; then the LFOs of the current
    /// bank, from the highest visible row downward; else the output is held.
    pub open spec fn drive_of(self, col: int) -> Drive {
        match self.first_override(col, 0) {
            Some(bank) => Drive::Fader { bank: bank as usize, value: self.fader(bank, col) },
            None => match self.top_row(col, 8) {
                Some(r_vis) => Drive::Lfo {
                    row: (self.lfo_bank * 8 + r_vis) as usize,
                    sample: self.lfo_values[self.lfo_bank * 8 + r_vis],
                },
                None => Drive::Hold,
            },
        }
    }

    /// The text "/lfo/" that opens the address of an LFO sample.
    pub open spec fn lfo_prefix() -> Seq<char> {
        seq!['/', 'l', 'f', 'o', '/']
    }

    /// An LFO sample changes the state only in the slot it is for.
    pub open spec fn osc_step(self, addr: Seq<char>, sample: Option<u32>) -> MappingView {
        match (lfo_source(addr), sample) {
            (Some(n), Some(bits)) => MappingView {
                lfo_values: self.lfo_values.update(self.lfo_bank * 8 + n - 1, bits),
                ..self
            },
            _ => self,
        }
    }
}

/// The LFO that an address names: "/lfo/" followed by a decimal number from
/// 1 to 8. Every other address names none.
pub open spec fn lfo_source(addr: Seq<char>) -> Option<int> {
    if addr.len() >= 5 && addr.take(5) == MappingView::lfo_prefix() {
        match parse_unsigned(addr.skip(5)) {
            Some(n) => if 1 <= n <= 8 {
                Some(n)
            } else {
                None
            },
            None => None,
        }
    } else {
        None
    }
}

/// Reads the LFO number out of an address.
pub fn lfo_source_of(addr: &str) -> (source: Option<usize>)
    ensures
        match source {
            Some(n) => lfo_source(addr@) == Some(n as int),
            None => lfo_source(addr@) is None,
        },
{
    let chars: Vec<char> = chars_of(addr);
    let n: usize = chars.len();
    if n < 5 {
        return None;
    }
    if !(chars[0] == '/' && chars[1] == 'l' && chars[2] == 'f' && chars[3] == 'o' && chars[4]
        == '/') {
        assert(addr@.take(5)[0] == addr@[0] && addr@.take(5)[1] == addr@[1] && addr@.take(5)[2]
            == addr@[2] && addr@.take(5)[3] == addr@[3] && addr@.take(5)[4] == addr@[4]);
        return None;
    }
    assert(addr@.take(5) =~= MappingView::lfo_prefix());
    assert(addr@.skip(5) =~= chars@.subrange(5, n as int));
    let parsed: Option<u32> = parse_number(&chars, 5, n, 8);
    match parsed {
        Some(v) => if v >= 1 {
            Some(v as usize)
        } else {
            None
        },
        None => None,
    }
}

impl AppState {
    /// What drives effect output `col` on the next tick.
    pub fn drive(&self, col: usize) -> (d: Drive)
        requires
            self.wf(),
            col < 32,
        ensures
            d == self@.drive_of(col as int),
    {
        let mut bank: usize = 0;
        while bank < 4
            invariant
                self.wf(),
                col < 32,
                bank <= 4,
                self@.first_override(col as int, 0) == self@.first_override(col as int, bank as int),
            decreases 4 - bank,
        {
            if self.fader_override_active[bank * 32 + col] {
                return Drive::Fader { bank, value: self.fader_override_value[bank * 32 + col] };
            }
            bank += 1;
        }
        let lfo_bank: usize = self.current_lfo_bank;
        let mut r_vis: usize = 8;
        while r_vis > 0
            invariant
                self.wf(),
                col < 32,
                r_vis <= 8,
                lfo_bank == self.current_lfo_bank,
                self@.first_override(col as int, 0) is None,
                self@.top_row(col as int, 8) == self@.top_row(col as int, r_vis as int),
            decreases r_vis,
        {
            let row: usize = lfo_bank * 8 + r_vis - 1;
            if self.mapping[row * 32 + col] {
                return Drive::Lfo { row, sample: self.latest_lfo_values[row] };
            }
            r_vis -= 1;
        }
        Drive::Hold
    }

    /// What drives each of the 32 effect outputs on the next tick.
    pub fn drives(&self) -> (all: Vec<Drive>)
        requires
            self.wf(),
        ensures
            all@.len() == 32,
            forall|col: int| 0 <= col < 32 ==> all@[col] == self@.drive_of(col),
    {
        let mut all: Vec<Drive> = Vec::new();
        let mut col: usize = 0;
        while col < 32
            invariant
                self.wf(),
                col <= 32,
                all@.len() == col,
                forall|c: int| 0 <= c < col ==> all@[c] == self@.drive_of(c),
            decreases 32 - col,
        {
            all.push(self.drive(col));
            col += 1;
        }
        all
    }

    /// Takes in one OSC message: its address, and its first argument where
    /// that is a single-precision number (as bits). A sample for LFO `n` of
    /// the controller lands in slot `n - 1` of the current LFO bank.
    pub fn process_osc_message(&mut self, addr: &str, sample: Option<u32>)
        requires
            old(self).wf(),
        ensures
            final(self)@ == old(self)@.osc_step(addr@, sample),
            final(self).wf(),
    {
        match (lfo_source_of(addr), sample) {
            (Some(n), Some(bits)) => {
                let slot: usize = self.current_lfo_bank * 8 + n - 1;
                self.latest_lfo_values.set(slot, bits);
            },
            _ => {},
        }
    }
}

/// Fader precedence: while a fader is active for a column in any bank, the
/// column is driven by the fader of the first such bank, at its value.
pub proof fn lemma_fader_precedence(v: MappingView, bank: int, col: int)
    requires
        0 <= bank < 4,
        v.overridden(bank, col),
    ensures
        v.first_override(col, 0) is Some,
        0 <= v.first_override(col, 0)->0 <= bank,
        v.overridden(v.first_override(col, 0)->0, col),
        forall|b: int| 0 <= b < v.first_override(col, 0)->0 ==> !v.overridden(b, col),
        v.drive_of(col) == (Drive::Fader {
            bank: v.first_override(col, 0)->0 as usize,
            value: v.fader(v.first_override(col, 0)->0, col),
        }),
{
    reveal_with_fuel(MappingView::first_override, 5);
}

/// Fader precedence does not look at the mapping: two states with the same
/// fader tables drive an overridden column alike, whatever is mapped and
/// whatever the LFOs last sent.
pub proof fn lemma_fader_ignores_mapping(v: MappingView, w: MappingView, bank: int, col: int)
    requires
        0 <= bank < 4,
        v.overridden(bank, col),
        v.fader_active == w.fader_active,
        v.fader_value == w.fader_value,
    ensures
        v.drive_of(col) == w.drive_of(col),
{
    reveal_with_fuel(MappingView::first_override, 5);
}

/// Without an active fader the highest mapped row of the current bank drives
/// the column, and where no row of that bank is mapped the output is held.
pub proof fn lemma_lfo_precedence(v: MappingView, col: int)
    requires
        v.wf(),
        forall|b: int| 0 <= b < 4 ==> !v.overridden(b, col),
    ensures
        match v.drive_of(col) {
            Drive::Fader { .. } => false,
            Drive::Lfo { row, sample } => {
                &&& v.lfo_bank * 8 <= row < v.lfo_bank * 8 + 8
                &&& v.mapped(row as int, col)
                &&& sample == v.lfo_values[row as int]
                &&& forall|r: int| row < r < v.lfo_bank * 8 + 8 ==> !v.mapped(r, col)
            },
            Drive::Hold => forall|r: int| v.lfo_bank * 8 <= r < v.lfo_bank * 8 + 8 ==> !v.mapped(r, col),
        },
{
    reveal_with_fuel(MappingView::first_override, 5);
    reveal_with_fuel(MappingView::top_row, 9);
}

} // verus!
