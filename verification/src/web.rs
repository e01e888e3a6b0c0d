//! What the HTTP endpoints decide: which log entries are shown, and
//! whether a request to the debug endpoints is complete.

use std::collections::VecDeque;
use vstd::prelude::*;
use crate::controller::{log_view, LogEntry, LogEntryView};
use crate::sender_monitor::{DebugCommand, MappingTesterCommand, PowerDrawTesterCommand};
use crate::text::chars_of;

verus! {

/// Whether `needle` stands somewhere in `hay`.
pub open spec fn occurs_in(needle: Seq<char>, hay: Seq<char>) -> bool {
    exists|k: int| #[trigger] occurs_at(needle, hay, k)
}

/// Whether `needle` stands in `hay` at position `k`.
pub open spec fn occurs_at(needle: Seq<char>, hay: Seq<char>, k: int) -> bool {
    0 <= k && k + needle.len() <= hay.len() && hay.subrange(k, k + needle.len()) == needle
}

/// Whether a log message is about the keep-alive traffic: it names a noop
/// or a heartbeat.
pub open spec fn is_chatter(message: Seq<char>) -> bool {
    occurs_in("noop"@, message) || occurs_in("Noop"@, message) || occurs_in("heartbeat"@, message)
        || occurs_in("Heartbeat"@, message)
}

/// The entries of a log that are shown: all but the keep-alive traffic, in
/// their order.
pub open spec fn shown_entries(log: Seq<LogEntryView>) -> Seq<LogEntryView>
    decreases log.len(),
{
    if log.len() == 0 {
        Seq::empty()
    } else if is_chatter(log.last().message) {
        shown_entries(log.drop_last())
    } else {
        shown_entries(log.drop_last()).push(log.last())
    }
}

/// Whether `needle` stands somewhere in `hay`.
pub fn contains_text(hay: &Vec<char>, needle: &Vec<char>) -> (found: bool)
    ensures
        found == occurs_in(needle@, hay@),
{
    let n: usize = needle.len();
    let h: usize = hay.len();
    if n > h {
        assert forall|k: int| !occurs_at(needle@, hay@, k) by {}
        return false;
    }
    let mut k: usize = 0;
    while k <= h - n
        invariant
            n <= h,
            n == needle@.len(),
            h == hay@.len(),
            k <= h - n + 1,
            forall|j: int| 0 <= j < k ==> !occurs_at(needle@, hay@, j),
        decreases h - n + 1 - k,
    {
        let mut i: usize = 0;
        while i < n && hay[k + i] == needle[i]
            invariant
                n == needle@.len(),
                h == hay@.len(),
                k + n <= h,
                i <= n,
                forall|j: int| 0 <= j < i ==> hay@[k + j] == needle@[j],
            decreases n - i,
        {
            i += 1;
        }
        if i == n {
            assert(hay@.subrange(k as int, k + n) =~= needle@);
            assert(occurs_at(needle@, hay@, k as int));
            return true;
        }
        assert(!occurs_at(needle@, hay@, k as int)) by {
            if occurs_at(needle@, hay@, k as int) {
                assert(hay@.subrange(k as int, k + n)[i as int] == needle@[i as int]);
            }
        }
        k += 1;
    }
    assert forall|j: int| !occurs_at(needle@, hay@, j) by {}
    false
}

/// Whether a log message is about the keep-alive traffic.
pub fn message_is_chatter(message: &str) -> (chatter: bool)
    ensures
        chatter == is_chatter(message@),
{
    let hay: Vec<char> = chars_of(message);
    let lower_noop: Vec<char> = chars_of("noop");
    let upper_noop: Vec<char> = chars_of("Noop");
    let lower_heartbeat: Vec<char> = chars_of("heartbeat");
    let upper_heartbeat: Vec<char> = chars_of("Heartbeat");
    contains_text(&hay, &lower_noop) || contains_text(&hay, &upper_noop) || contains_text(
        &hay,
        &lower_heartbeat,
    ) || contains_text(&hay, &upper_heartbeat)
}

/// The log of a device as the logs endpoint shows it.
pub fn visible_logs(logs: &VecDeque<LogEntry>) -> (shown: Vec<LogEntry>)
    ensures
        log_view(shown@) == shown_entries(log_view(logs@)),
{
    let mut shown: Vec<LogEntry> = Vec::new();
    let ghost all = log_view(logs@);
    let mut i: usize = 0;
    assert(all.take(0) =~= Seq::<LogEntryView>::empty());
    assert(log_view(shown@) =~= Seq::<LogEntryView>::empty());
    while i < logs.len()
        invariant
            i <= logs@.len(),
            all == log_view(logs@),
            log_view(shown@) == shown_entries(all.take(i as int)),
        decreases logs@.len() - i,
    {
        let entry: &LogEntry = &logs[i];
        proof {
            assert(all.take(i + 1).drop_last() =~= all.take(i as int));
            assert(all.take(i + 1).last() == entry@);
        }
        if !message_is_chatter(entry.message.as_str()) {
            let ghost before = log_view(shown@);
            let copy = LogEntry {
                timestamp: entry.timestamp,
                direction: entry.direction,
                message: entry.message.clone(),
                raw_data: match &entry.raw_data {
                    Some(r) => Some(r.clone()),
                    None => None,
                },
            };
            shown.push(copy);
            assert(log_view(shown@) =~= before.push(entry@));
        }
        i += 1;
    }
    assert(all.take(logs@.len() as int) =~= all);
    shown
}

/// Why a request to a debug endpoint was turned down.
#[derive(Clone, Copy, Debug, PartialEq, Eq, Structural)]
pub enum RequestError {
    /// The mapping tester needs an orientation, a layer and a colour.
    MissingMappingFields,
    /// The power-draw tester needs a colour, a modulation type, a
    /// frequency, an amplitude, an offset and a global brightness.
    MissingPowerDrawFields,
    /// Switching debug mode needs `enabled`.
    MissingEnabled,
    /// Pausing needs `paused`.
    MissingPaused,
}

/// The text sent back with a request that was turned down.
pub open spec fn request_error_text(error: RequestError) -> Seq<char> {
    match error {
        RequestError::MissingMappingFields => "Missing required fields: orientation, layer, color"@,
        RequestError::MissingPowerDrawFields => "Missing required fields: color, modulation_type, frequency, amplitude, offset, global_brightness"@,
        RequestError::MissingEnabled => "Missing 'enabled' field"@,
        RequestError::MissingPaused => "Missing 'paused' field"@,
    }
}

impl RequestError {
    pub fn message(&self) -> (text: String)
        ensures
            text@ == request_error_text(*self),
    {
        match self {
            RequestError::MissingMappingFields => "Missing required fields: orientation, layer, color".to_owned(),
            RequestError::MissingPowerDrawFields => "Missing required fields: color, modulation_type, frequency, amplitude, offset, global_brightness".to_owned(),
            RequestError::MissingEnabled => "Missing 'enabled' field".to_owned(),
            RequestError::MissingPaused => "Missing 'paused' field".to_owned(),
        }
    }
}

/// A request to switch a flag: it must carry the flag.
pub fn flag_request(flag: Option<bool>, missing: RequestError) -> (request: Result<
    bool,
    RequestError,
>)
    ensures
        request == (match flag {
            Some(b) => Ok::<bool, RequestError>(b),
            None => Err::<bool, RequestError>(missing),
        }),
{
    match flag {
        Some(b) => Ok(b),
        None => Err(missing),
    }
}

/// What a request to the mapping tester stores, as plain values.
pub enum StoredCommand {
    Clear,
    MappingTester { orientation: Seq<char>, layer: usize, color: Seq<char> },
    PowerDrawTester {
        color: Seq<char>,
        modulation_type: Seq<char>,
        frequency: u64,
        amplitude: u64,
        offset: u64,
        global_brightness: u64,
    },
}

/// Whether a debug command is the stored form of `stored`.
pub open spec fn stores(command: DebugCommand, stored: StoredCommand) -> bool {
    match stored {
        StoredCommand::Clear => {
            &&& command.command_type@ == "clear"@
            &&& command.mapping_tester is None
            &&& command.power_draw_tester is None
        },
        StoredCommand::MappingTester { orientation, layer, color } => {
            &&& command.command_type@ == "mapping_tester"@
            &&& command.mapping_tester matches Some(mt)
            &&& mt.orientation@ == orientation
            &&& mt.layer == layer
            &&& mt.color@ == color
            &&& command.power_draw_tester is None
        },
        StoredCommand::PowerDrawTester {
            color,
            modulation_type,
            frequency,
            amplitude,
            offset,
            global_brightness,
        } => {
            &&& command.command_type@ == "power_draw_tester"@
            &&& command.mapping_tester is None
            &&& command.power_draw_tester matches Some(pdt)
            &&& pdt.color@ == color
            &&& pdt.modulation_type@ == modulation_type
            &&& pdt.frequency == frequency
            &&& pdt.amplitude == amplitude
            &&& pdt.offset == offset
            &&& pdt.global_brightness == global_brightness
        },
    }
}

/// A request to the mapping tester: with `clear` set it clears the debug
/// commands; else it must carry an orientation, a layer and a colour.
pub fn mapping_tester_request(
    clear: Option<bool>,
    orientation: Option<String>,
    layer: Option<u64>,
    color: Option<String>,
) -> (request: Result<DebugCommand, RequestError>)
    ensures
        clear == Some(true) ==> request is Ok && stores(request->Ok_0, StoredCommand::Clear),
        clear != Some(true) && orientation is Some && layer is Some && color is Some
            ==> request is Ok && stores(
            request->Ok_0,
            StoredCommand::MappingTester {
                orientation: orientation->0@,
                layer: layer->0 as usize,
                color: color->0@,
            },
        ),
        clear != Some(true) && !(orientation is Some && layer is Some && color is Some)
            ==> request == Err::<DebugCommand, RequestError>(RequestError::MissingMappingFields),
{
    if let Some(true) = clear {
        return Ok(
            DebugCommand {
                command_type: "clear".to_owned(),
                mapping_tester: None,
                power_draw_tester: None,
            },
        );
    }
    match (orientation, layer, color) {
        (Some(o), Some(l), Some(c)) => Ok(
            DebugCommand {
                command_type: "mapping_tester".to_owned(),
                mapping_tester: Some(
                    MappingTesterCommand {
                        orientation: o,
                        layer: #[verifier::truncate]
                        (l as usize),
                        color: c,
                    },
                ),
                power_draw_tester: None,
            },
        ),
        _ => Err(RequestError::MissingMappingFields),
    }
}

/// A request to the power-draw tester: it must carry all six fields. The
/// four numbers come as the bit patterns of double-precision numbers.
pub fn power_draw_tester_request(
    color: Option<String>,
    modulation_type: Option<String>,
    frequency: Option<u64>,
    amplitude: Option<u64>,
    offset: Option<u64>,
    global_brightness: Option<u64>,
) -> (request: Result<DebugCommand, RequestError>)
    ensures
        color is Some && modulation_type is Some && frequency is Some && amplitude is Some
            && offset is Some && global_brightness is Some ==> request is Ok && stores(
            request->Ok_0,
            StoredCommand::PowerDrawTester {
                color: color->0@,
                modulation_type: modulation_type->0@,
                frequency: frequency->0,
                amplitude: amplitude->0,
                offset: offset->0,
                global_brightness: global_brightness->0,
            },
        ),
        !(color is Some && modulation_type is Some && frequency is Some && amplitude is Some
            && offset is Some && global_brightness is Some) ==> request == Err::<
            DebugCommand,
            RequestError,
        >(RequestError::MissingPowerDrawFields),
{
    match (color, modulation_type, frequency, amplitude, offset, global_brightness) {
        (Some(c), Some(m), Some(f), Some(a), Some(o), Some(g)) => Ok(
            DebugCommand {
                command_type: "power_draw_tester".to_owned(),
                mapping_tester: None,
                power_draw_tester: Some(
                    PowerDrawTesterCommand {
                        color: c,
                        modulation_type: m,
                        frequency: f,
                        amplitude: a,
                        offset: o,
                        global_brightness: g,
                    },
                ),
            },
        ),
        _ => Err(RequestError::MissingPowerDrawFields),
    }
}

} // verus!
