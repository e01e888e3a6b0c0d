//! The state kept for one control-port device: its connection, its
//! counters and heartbeats, its log, its two display buffers and the queue
//! of messages that wait to be sent.

use std::collections::VecDeque;
use vstd::prelude::*;
use vstd::utf8::encode_utf8;
use crate::clock::{is_stale, now_millis, seconds_between, stale, whole_seconds};
use crate::display::{
    all_blank,
    blank_buffer,
    blank_grid,
    buffer_is_valid,
    buffer_wf,
    clear_buffer,
    commit_buffers,
    commit_messages,
    find_contiguous_changes,
    grid,
    is_run_cover,
    merged_runs,
    refresh_buffers,
    refresh_messages,
    write_text,
    written,
};
use crate::message::{
    messages_view,
    reading_of,
    reading_view,
    IncomingMessage,
    IncomingView,
    MessageError,
    MessageView,
    OutgoingMessage,
};
use crate::text::{decimal_text, join, push_decimal, trim, trimmed};

verus! {

pub const DISPLAY_WIDTH: u16 = 20;

pub const DISPLAY_HEIGHT: u16 = 4;

/// The log keeps this many entries, the newest ones.
pub const LOG_CAPACITY: usize = 1000;

/// Where a device is reached.
#[derive(Debug, Clone)]
pub struct ControllerConfig {
    pub ip: String,
    pub port: u16,
}

/// The devices of an installation, by their identifier.
#[derive(Debug, Clone)]
pub struct Config {
    pub controller_addresses: std::collections::HashMap<String, ControllerConfig>,
}

#[derive(Clone, Copy, Debug, PartialEq, Eq, Structural)]
pub enum LogDirection {
    Incoming,
    Outgoing,
    Error,
    Info,
}

/// One line of a device's log.
#[derive(Debug, Clone)]
pub struct LogEntry {
    pub timestamp: i64,
    pub direction: LogDirection,
    pub message: String,
    pub raw_data: Option<String>,
}

pub struct LogEntryView {
    pub timestamp: i64,
    pub direction: LogDirection,
    pub message: Seq<char>,
    pub raw_data: Option<Seq<char>>,
}

/// The text of an optional string.
pub open spec fn text_view(text: Option<String>) -> Option<Seq<char>> {
    match text {
        Some(t) => Some(t@),
        None => None,
    }
}

impl View for LogEntry {
    type V = LogEntryView;

    open spec fn view(&self) -> LogEntryView {
        LogEntryView {
            timestamp: self.timestamp,
            direction: self.direction,
            message: self.message@,
            raw_data: text_view(self.raw_data),
        }
    }
}

/// The entries of a log as plain values.
pub open spec fn log_view(log: Seq<LogEntry>) -> Seq<LogEntryView> {
    log.map_values(|e: LogEntry| e@)
}

/// A log after one more entry: it is added at the end, and the oldest
/// entries leave until a thousand are left.
pub open spec fn logged(log: Seq<LogEntryView>, entry: LogEntryView) -> Seq<LogEntryView> {
    let longer = log.push(entry);
    if longer.len() > 1000 {
        longer.skip(longer.len() - 1000)
    } else {
        longer
    }
}

/// What is published about a device.
#[derive(Debug, Clone)]
pub struct ControllerStats {
    pub dip: String,
    pub ip: String,
    pub port: u16,
    pub connected: bool,
    pub last_message_time: Option<i64>,
    pub connection_time: Option<i64>,
    pub bytes_sent: u64,
    pub bytes_received: u64,
    pub messages_sent: u64,
    pub messages_received: u64,
    pub connection_attempts: u64,
    pub last_error: Option<String>,
    pub last_throughput_update: Option<i64>,
    pub last_heartbeat_received: Option<i64>,
    pub last_noop_sent: Option<i64>,
    pub heartbeat_received_active: bool,
    pub noop_sent_active: bool,
}

pub struct StatsView {
    pub dip: Seq<char>,
    pub ip: Seq<char>,
    pub port: u16,
    pub connected: bool,
    pub last_message_time: Option<i64>,
    pub connection_time: Option<i64>,
    pub bytes_sent: u64,
    pub bytes_received: u64,
    pub messages_sent: u64,
    pub messages_received: u64,
    pub connection_attempts: u64,
    pub last_error: Option<Seq<char>>,
    pub last_throughput_update: Option<i64>,
    pub last_heartbeat_received: Option<i64>,
    pub last_noop_sent: Option<i64>,
    pub heartbeat_received_active: bool,
    pub noop_sent_active: bool,
}

impl View for ControllerStats {
    type V = StatsView;

    open spec fn view(&self) -> StatsView {
        StatsView {
            dip: self.dip@,
            ip: self.ip@,
            port: self.port,
            connected: self.connected,
            last_message_time: self.last_message_time,
            connection_time: self.connection_time,
            bytes_sent: self.bytes_sent,
            bytes_received: self.bytes_received,
            messages_sent: self.messages_sent,
            messages_received: self.messages_received,
            connection_attempts: self.connection_attempts,
            last_error: text_view(self.last_error),
            last_throughput_update: self.last_throughput_update,
            last_heartbeat_received: self.last_heartbeat_received,
            last_noop_sent: self.last_noop_sent,
            heartbeat_received_active: self.heartbeat_received_active,
            noop_sent_active: self.noop_sent_active,
        }
    }
}

/// The age in whole seconds of an instant that may be missing.
pub open spec fn age_seconds(then: Option<i64>, now: i64) -> Option<i64> {
    match then {
        Some(t) => Some(whole_seconds(t as int, now as int) as i64),
        None => None,
    }
}

impl ControllerStats {
    /// Seconds since the last heartbeat arrived, at time `now`.
    pub fn heartbeat_received_age_seconds_at(&self, now: i64) -> (age: Option<i64>)
        ensures
            age == age_seconds(self.last_heartbeat_received, now),
    {
        match self.last_heartbeat_received {
            Some(time) => Some(seconds_between(time, now)),
            None => None,
        }
    }

    /// Seconds since the last heartbeat arrived, by the clock.
    pub fn heartbeat_received_age_seconds(&self) -> (age: Option<i64>)
        ensures
            exists|now: i64| age == age_seconds(self.last_heartbeat_received, now),
    {
        let now: i64 = now_millis();
        self.heartbeat_received_age_seconds_at(now)
    }

    /// Seconds since the last noop was queued, at time `now`.
    pub fn noop_sent_age_seconds_at(&self, now: i64) -> (age: Option<i64>)
        ensures
            age == age_seconds(self.last_noop_sent, now),
    {
        match self.last_noop_sent {
            Some(time) => Some(seconds_between(time, now)),
            None => None,
        }
    }

    /// Seconds since the last noop was queued, by the clock.
    pub fn noop_sent_age_seconds(&self) -> (age: Option<i64>)
        ensures
            exists|now: i64| age == age_seconds(self.last_noop_sent, now),
    {
        let now: i64 = now_millis();
        self.noop_sent_age_seconds_at(now)
    }
}

/// The state of one device.
#[derive(Debug)]
pub struct ControllerState {
    pub dip: String,
    pub config: ControllerConfig,
    pub connected: bool,
    pub stats: ControllerStats,
    pub log: VecDeque<LogEntry>,
    pub bytes_sent: u64,
    pub bytes_received: u64,
    pub messages_sent: u64,
    pub messages_received: u64,
    pub connection_attempts: u64,
    /// The byte counters as they stood when throughput was last sampled.
    pub last_bytes_sent: u64,
    pub last_bytes_received: u64,
    pub last_heartbeat_received: Option<i64>,
    pub last_noop_sent: Option<i64>,
    pub heartbeat_received_active: bool,
    pub noop_sent_active: bool,
    pub display_width: u16,
    pub display_height: u16,
    /// What the device has been told to show.
    pub front_buffer: Vec<Vec<char>>,
    /// What it is to show after the next commit.
    pub back_buffer: Vec<Vec<char>>,
    /// Messages that wait to be written to the connection, oldest first.
    pub outbox: Vec<OutgoingMessage>,
}

pub struct ControllerView {
    pub dip: Seq<char>,
    pub ip: Seq<char>,
    pub port: u16,
    pub connected: bool,
    pub stats: StatsView,
    pub log: Seq<LogEntryView>,
    pub bytes_sent: u64,
    pub bytes_received: u64,
    pub messages_sent: u64,
    pub messages_received: u64,
    pub connection_attempts: u64,
    pub last_bytes_sent: u64,
    pub last_bytes_received: u64,
    pub last_heartbeat_received: Option<i64>,
    pub last_noop_sent: Option<i64>,
    pub heartbeat_received_active: bool,
    pub noop_sent_active: bool,
    pub display_width: u16,
    pub display_height: u16,
    pub front: Seq<Seq<char>>,
    pub back: Seq<Seq<char>>,
    pub outbox: Seq<MessageView>,
}

impl View for ControllerState {
    type V = ControllerView;

    open spec fn view(&self) -> ControllerView {
        ControllerView {
            dip: self.dip@,
            ip: self.config.ip@,
            port: self.config.port,
            connected: self.connected,
            stats: self.stats@,
            log: log_view(self.log@),
            bytes_sent: self.bytes_sent,
            bytes_received: self.bytes_received,
            messages_sent: self.messages_sent,
            messages_received: self.messages_received,
            connection_attempts: self.connection_attempts,
            last_bytes_sent: self.last_bytes_sent,
            last_bytes_received: self.last_bytes_received,
            last_heartbeat_received: self.last_heartbeat_received,
            last_noop_sent: self.last_noop_sent,
            heartbeat_received_active: self.heartbeat_received_active,
            noop_sent_active: self.noop_sent_active,
            display_width: self.display_width,
            display_height: self.display_height,
            front: grid(self.front_buffer@),
            back: grid(self.back_buffer@),
            outbox: messages_view(self.outbox@),
        }
    }
}

impl ControllerView {
    /// The state of a device that was never connected.
    pub open spec fn initial(dip: Seq<char>, ip: Seq<char>, port: u16) -> ControllerView {
        ControllerView {
            dip,
            ip,
            port,
            connected: false,
            stats: StatsView {
                dip,
                ip,
                port,
                connected: false,
                last_message_time: None,
                connection_time: None,
                bytes_sent: 0,
                bytes_received: 0,
                messages_sent: 0,
                messages_received: 0,
                connection_attempts: 0,
                last_error: None,
                last_throughput_update: None,
                last_heartbeat_received: None,
                last_noop_sent: None,
                heartbeat_received_active: false,
                noop_sent_active: false,
            },
            log: Seq::empty(),
            bytes_sent: 0,
            bytes_received: 0,
            messages_sent: 0,
            messages_received: 0,
            connection_attempts: 0,
            last_bytes_sent: 0,
            last_bytes_received: 0,
            last_heartbeat_received: None,
            last_noop_sent: None,
            heartbeat_received_active: false,
            noop_sent_active: false,
            display_width: 20,
            display_height: 4,
            front: blank_grid(20, 4),
            back: blank_grid(20, 4),
            outbox: Seq::empty(),
        }
    }

    /// The state with one more log entry.
    pub open spec fn with_log(
        self,
        now: i64,
        direction: LogDirection,
        message: Seq<char>,
        raw_data: Option<Seq<char>>,
    ) -> ControllerView {
        ControllerView {
            log: logged(self.log, LogEntryView { timestamp: now, direction, message, raw_data }),
            ..self
        }
    }

    /// The state with one more message in the queue. Queueing a noop is
    /// noted as the time of the last noop.
    pub open spec fn with_message(self, message: MessageView, now: i64) -> ControllerView {
        if message is Noop {
            ControllerView {
                outbox: self.outbox.push(message),
                last_noop_sent: Some(now),
                noop_sent_active: true,
                ..self
            }
        } else {
            ControllerView { outbox: self.outbox.push(message), ..self }
        }
    }

    /// The state with a run of messages queued one after the other.
    pub open spec fn with_messages(self, messages: Seq<MessageView>, now: i64) -> ControllerView
        decreases messages.len(),
    {
        if messages.len() == 0 {
            self
        } else {
            self.with_messages(messages.drop_last(), now).with_message(messages.last(), now)
        }
    }
}

fn copy_text(text: &String) -> (copy: String)
    ensures
        copy@ == text@,
{
    text.clone()
}

impl ControllerState {
    /// The display has its two buffers, every queued message can be written
    /// down, and the throughput marks are not ahead of the counters.
    pub open spec fn wf(&self) -> bool {
        &&& buffer_wf(self.front_buffer@, self.display_width as int, self.display_height as int)
        &&& buffer_wf(self.back_buffer@, self.display_width as int, self.display_height as int)
        &&& forall|i: int| 0 <= i < self.outbox@.len() ==> (#[trigger] self.outbox@[i]).wf()
        &&& self.last_bytes_sent <= self.bytes_sent
        &&& self.last_bytes_received <= self.bytes_received
    }

    /// Tests `wf`.
    pub fn is_valid(&self) -> (valid: bool)
        ensures
            valid == self.wf(),
    {
        if !buffer_is_valid(
            &self.front_buffer,
            self.display_width as usize,
            self.display_height as usize,
        ) || !buffer_is_valid(
            &self.back_buffer,
            self.display_width as usize,
            self.display_height as usize,
        ) {
            return false;
        }
        if self.last_bytes_sent > self.bytes_sent || self.last_bytes_received
            > self.bytes_received {
            return false;
        }
        let mut i: usize = 0;
        while i < self.outbox.len()
            invariant
                i <= self.outbox@.len(),
                forall|k: int| 0 <= k < i ==> (#[trigger] self.outbox@[k]).wf(),
            decreases self.outbox@.len() - i,
        {
            if !self.outbox[i].fits_wire() {
                return false;
            }
            i += 1;
        }
        true
    }

    pub fn new(dip: String, config: ControllerConfig) -> (state: ControllerState)
        ensures
            state@ == ControllerView::initial(dip@, config.ip@, config.port),
            state.wf(),
    {
        let stats = ControllerStats {
            dip: copy_text(&dip),
            ip: copy_text(&config.ip),
            port: config.port,
            connected: false,
            last_message_time: None,
            connection_time: None,
            bytes_sent: 0,
            bytes_received: 0,
            messages_sent: 0,
            messages_received: 0,
            connection_attempts: 0,
            last_error: None,
            last_throughput_update: None,
            last_heartbeat_received: None,
            last_noop_sent: None,
            heartbeat_received_active: false,
            noop_sent_active: false,
        };
        let state = ControllerState {
            dip,
            config,
            connected: false,
            stats,
            log: VecDeque::new(),
            bytes_sent: 0,
            bytes_received: 0,
            messages_sent: 0,
            messages_received: 0,
            connection_attempts: 0,
            last_bytes_sent: 0,
            last_bytes_received: 0,
            last_heartbeat_received: None,
            last_noop_sent: None,
            heartbeat_received_active: false,
            noop_sent_active: false,
            display_width: DISPLAY_WIDTH,
            display_height: DISPLAY_HEIGHT,
            front_buffer: blank_buffer(20, 4),
            back_buffer: blank_buffer(20, 4),
            outbox: Vec::new(),
        };
        assert(state@.log =~= Seq::<LogEntryView>::empty());
        assert(state@.outbox =~= Seq::<MessageView>::empty());
        state
    }

    /// Adds an entry to the log, stamped `now`.
    pub fn add_log_at(
        &mut self,
        direction: LogDirection,
        message: String,
        raw_data: Option<String>,
        now: i64,
    )
        requires
            old(self).wf(),
        ensures
            final(self)@ == old(self)@.with_log(now, direction, message@, text_view(raw_data)),
            final(self).wf(),
            final(self)@.log.len() <= 1000,
    {
        let entry = LogEntry { timestamp: now, direction, message, raw_data };
        let ghost longer = log_view(self.log@).push(entry@);
        self.log.push_back(entry);
        assert(log_view(self.log@) =~= longer);
        while self.log.len() > LOG_CAPACITY
            invariant
                log_view(self.log@).len() <= longer.len(),
                log_view(self.log@).len() >= 1000 || log_view(self.log@).len() == longer.len(),
                log_view(self.log@) == longer.skip(longer.len() - log_view(self.log@).len()),
                self.dip == old(self).dip,
                self.config == old(self).config,
                self.connected == old(self).connected,
                self.stats == old(self).stats,
                self.bytes_sent == old(self).bytes_sent,
                self.bytes_received == old(self).bytes_received,
                self.messages_sent == old(self).messages_sent,
                self.messages_received == old(self).messages_received,
                self.connection_attempts == old(self).connection_attempts,
                self.last_bytes_sent == old(self).last_bytes_sent,
                self.last_bytes_received == old(self).last_bytes_received,
                self.last_heartbeat_received == old(self).last_heartbeat_received,
                self.last_noop_sent == old(self).last_noop_sent,
                self.heartbeat_received_active == old(self).heartbeat_received_active,
                self.noop_sent_active == old(self).noop_sent_active,
                self.display_width == old(self).display_width,
                self.display_height == old(self).display_height,
                self.front_buffer == old(self).front_buffer,
                self.back_buffer == old(self).back_buffer,
                self.outbox == old(self).outbox,
            decreases self.log@.len(),
        {
            let ghost before = log_view(self.log@);
            self.log.pop_front();
            assert(log_view(self.log@) =~= before.skip(1));
            assert(before.skip(1) =~= longer.skip(longer.len() - log_view(self.log@).len()));
        }
        assert(log_view(self.log@) =~= logged(old(self)@.log, entry@));
    }

    /// Adds an entry to the log, stamped by the clock.
    pub fn add_log(&mut self, direction: LogDirection, message: String, raw_data: Option<String>)
        requires
            old(self).wf(),
        ensures
            exists|now: i64|
                final(self)@ == old(self)@.with_log(now, direction, message@, text_view(raw_data)),
            final(self).wf(),
    {
        let now: i64 = now_millis();
        self.add_log_at(direction, message, raw_data, now);
    }

    /// Queues a message for the device.
    pub fn send_message_at(&mut self, message: OutgoingMessage, now: i64)
        requires
            old(self).wf(),
            message.wf(),
        ensures
            final(self)@ == old(self)@.with_message(message@, now),
            final(self).wf(),
    {
        if message.is_noop() {
            self.last_noop_sent = Some(now);
            self.noop_sent_active = true;
        }
        let ghost before = self.outbox@;
        self.outbox.push(message);
        assert(messages_view(self.outbox@) =~= messages_view(before).push(message@));
    }

    /// Queues a message for the device; a noop is stamped by the clock.
    pub fn send_message(&mut self, message: OutgoingMessage)
        requires
            old(self).wf(),
            message.wf(),
        ensures
            exists|now: i64| final(self)@ == old(self)@.with_message(message@, now),
            final(self).wf(),
    {
        let now: i64 = now_millis();
        self.send_message_at(message, now);
    }

    /// Fills the back buffer with spaces.
    pub fn clear_display(&mut self)
        requires
            old(self).wf(),
        ensures
            final(self)@ == (ControllerView {
                back: blank_grid(
                    old(self).display_width as int,
                    old(self).display_height as int,
                ),
                ..old(self)@
            }),
            all_blank(final(self)@.back),
            final(self).wf(),
    {
        clear_buffer(
            &mut self.back_buffer,
            self.display_width as usize,
            self.display_height as usize,
        );
    }

    /// Writes `text` into row `y` of the back buffer from column `x` on,
    /// cut off at the last column. A position outside the display is ignored.
    pub fn write_display(&mut self, x: u16, y: u16, text: &str)
        requires
            old(self).wf(),
        ensures
            final(self)@ == (ControllerView {
                back: written(
                    old(self)@.back,
                    old(self).display_width as int,
                    x as int,
                    y as int,
                    text@,
                ),
                ..old(self)@
            }),
            final(self).wf(),
    {
        write_text(&mut self.back_buffer, self.display_width as usize, x as usize, y as usize, text);
    }

    /// Works out the messages that bring the device from the front buffer
    /// to the back buffer, and takes the back buffer as shown.
    pub fn commit_display(&mut self) -> (messages: Vec<OutgoingMessage>)
        requires
            old(self).wf(),
        ensures
            messages_view(messages@) == commit_messages(
                old(self)@.front,
                old(self)@.back,
                old(self).display_width as int,
            ),
            final(self)@ == (ControllerView { front: old(self)@.back, ..old(self)@ }),
            final(self).wf(),
            forall|i: int| 0 <= i < messages@.len() ==> (#[trigger] messages@[i]).wf(),
    {
        let messages = commit_buffers(
            &mut self.front_buffer,
            &self.back_buffer,
            self.display_width as usize,
            self.display_height as usize,
        );
        proof {
            assert forall|i: int| 0 <= i < messages@.len() implies (#[trigger] messages@[i]).wf() by {
                crate::display::lemma_commit_sends_no_led(
                    old(self)@.front,
                    old(self)@.back,
                    old(self).display_width as int,
                    i,
                );
                assert(messages_view(messages@)[i] == messages@[i]@);
            }
        }
        messages
    }

    /// The runs of changed cells in row `y` of two buffers.
    pub fn find_contiguous_changes(
        &self,
        front_buffer: &[Vec<char>],
        back_buffer: &[Vec<char>],
        y: usize,
    ) -> (changes: Vec<(usize, usize)>)
        requires
            y < front_buffer@.len(),
            y < back_buffer@.len(),
            self.display_width <= front_buffer@[y as int]@.len(),
            self.display_width <= back_buffer@[y as int]@.len(),
        ensures
            changes@ == merged_runs(
                front_buffer@[y as int]@,
                back_buffer@[y as int]@,
                self.display_width as int,
            ),
            is_run_cover(
                front_buffer@[y as int]@,
                back_buffer@[y as int]@,
                self.display_width as int,
                changes@,
            ),
    {
        find_contiguous_changes(front_buffer, back_buffer, y, self.display_width as usize)
    }
}

/// The change of the byte counters over a stretch of time, for the
/// throughput filter.
#[derive(Clone, Copy, Debug, PartialEq, Eq, Structural)]
pub struct ThroughputSample {
    /// Milliseconds since throughput was last looked at; more than 100.
    pub elapsed_ms: u64,
    pub sent: u64,
    pub received: u64,
}

/// What the supervisor of a connection is woken by.
#[derive(Clone, Copy, Debug, PartialEq, Eq, Structural)]
pub enum Tick {
    /// The task has just started.
    Start,
    /// The reconnect timer, every two seconds.
    Reconnect,
    /// The heartbeat timer, every second.
    Heartbeat,
    /// The shutdown signal.
    Shutdown,
}

/// What the supervisor has to do about it.
#[derive(Clone, Copy, Debug, PartialEq, Eq, Structural)]
pub enum SupervisorAction {
    Idle,
    /// Try to connect, giving up after two seconds.
    Connect,
    /// Queue a noop.
    SendNoop,
    /// Leave the loop.
    Stop,
}

/// How a connection came to its end.
#[derive(Clone, Copy, Debug, PartialEq, Eq, Structural)]
pub enum Ending {
    /// The device closed the connection.
    Closed,
    ReadError,
    WriteError,
}

/// The decisions of the supervising task: connect at once when it starts,
/// try again on the reconnect timer while disconnected, send a noop on the
/// heartbeat timer while connected, stop on shutdown.
pub open spec fn supervisor_action(connected: bool, tick: Tick) -> SupervisorAction {
    match tick {
        Tick::Start => SupervisorAction::Connect,
        Tick::Reconnect => if connected {
            SupervisorAction::Idle
        } else {
            SupervisorAction::Connect
        },
        Tick::Heartbeat => if connected {
            SupervisorAction::SendNoop
        } else {
            SupervisorAction::Idle
        },
        Tick::Shutdown => SupervisorAction::Stop,
    }
}

/// A counter that stops at its largest value instead of going round.
pub open spec fn bumped(counter: u64, by: int) -> u64 {
    if counter + by > u64::MAX {
        u64::MAX
    } else {
        (counter + by) as u64
    }
}

/// The address of a device as text: `ip:port`.
pub open spec fn address_text(ip: Seq<char>, port: u16) -> Seq<char> {
    ip + ":"@ + decimal_text(port as nat)
}

/// Booleans as `[true, false]`.
pub open spec fn flags_text_inner(flags: Seq<bool>) -> Seq<char>
    decreases flags.len(),
{
    if flags.len() == 0 {
        Seq::empty()
    } else if flags.len() == 1 {
        flag_text(flags[0])
    } else {
        flags_text_inner(flags.drop_last()) + ", "@ + flag_text(flags.last())
    }
}

pub open spec fn flag_text(flag: bool) -> Seq<char> {
    if flag {
        "true"@
    } else {
        "false"@
    }
}

pub open spec fn flags_text(flags: Seq<bool>) -> Seq<char> {
    "["@ + flags_text_inner(flags) + "]"@
}

/// Why a line was not understood, in words.
pub open spec fn error_text(error: MessageError, line: Seq<char>) -> Seq<char> {
    match error {
        MessageError::InvalidJson => "invalid JSON"@,
        MessageError::UnknownFormat => "Unknown message format: "@ + line,
    }
}

impl ControllerView {
    /// The sample for the throughput filter, if throughput was looked at
    /// before and more than 100 ms have passed since.
    pub open spec fn throughput_sample(self, now: i64) -> Option<ThroughputSample> {
        match self.stats.last_throughput_update {
            Some(last) => if now - last > 100 {
                Some(
                    ThroughputSample {
                        elapsed_ms: (now - last) as u64,
                        sent: (self.bytes_sent - self.last_bytes_sent) as u64,
                        received: (self.bytes_received - self.last_bytes_received) as u64,
                    },
                )
            } else {
                None
            },
            None => None,
        }
    }

    /// Whether the marks from which throughput is counted move up to the
    /// counters: with every sample, and the first time.
    pub open spec fn marks_move(self, now: i64) -> bool {
        self.throughput_sample(now) is Some || self.stats.last_throughput_update is None
    }

    pub open spec fn heartbeat_active_at(self, now: i64) -> bool {
        self.heartbeat_received_active && !(self.last_heartbeat_received matches Some(t) && is_stale(
            t as int,
            now as int,
        ))
    }

    pub open spec fn noop_active_at(self, now: i64) -> bool {
        self.noop_sent_active && !(self.last_noop_sent matches Some(t) && is_stale(
            t as int,
            now as int,
        ))
    }

    /// The state after its published numbers were brought up to date.
    pub open spec fn with_stats(self, now: i64) -> ControllerView {
        ControllerView {
            stats: StatsView {
                connected: self.connected,
                last_message_time: if self.connected {
                    Some(now)
                } else {
                    self.stats.last_message_time
                },
                bytes_sent: self.bytes_sent,
                bytes_received: self.bytes_received,
                messages_sent: self.messages_sent,
                messages_received: self.messages_received,
                connection_attempts: self.connection_attempts,
                last_throughput_update: Some(now),
                last_heartbeat_received: self.last_heartbeat_received,
                last_noop_sent: self.last_noop_sent,
                heartbeat_received_active: self.heartbeat_active_at(now),
                noop_sent_active: self.noop_active_at(now),
                ..self.stats
            },
            heartbeat_received_active: self.heartbeat_active_at(now),
            noop_sent_active: self.noop_active_at(now),
            last_bytes_sent: if self.marks_move(now) {
                self.bytes_sent
            } else {
                self.last_bytes_sent
            },
            last_bytes_received: if self.marks_move(now) {
                self.bytes_received
            } else {
                self.last_bytes_received
            },
            ..self
        }
    }

    /// The state after a connection attempt was counted.
    pub open spec fn with_attempt(self) -> ControllerView {
        ControllerView { connection_attempts: bumped(self.connection_attempts, 1), ..self }
    }

    /// The state after a connection was made: connected, the last error
    /// forgotten, the queue empty, and a note in the log.
    pub open spec fn established(self, now: i64) -> ControllerView {
        ControllerView {
            connected: true,
            stats: StatsView { last_error: None, connection_time: Some(now), ..self.stats },
            outbox: Seq::empty(),
            ..self
        }.with_log(
            now,
            LogDirection::Info,
            "Connection established and validated, spawning I/O task"@,
            None,
        )
    }

    /// The state after a connection ended.
    pub open spec fn ended(self, ending: Ending, detail: Seq<char>, now: i64) -> ControllerView {
        let noted = match ending {
            Ending::Closed => self,
            Ending::ReadError => self.with_log(
                now,
                LogDirection::Error,
                "Read error: "@ + detail,
                None,
            ),
            Ending::WriteError => self.with_log(
                now,
                LogDirection::Error,
                "Write error: "@ + detail,
                None,
            ),
        };
        ControllerView { connected: false, ..noted }.with_log(
            now,
            LogDirection::Info,
            "Connection closed"@,
            None,
        )
    }

    /// The state after a message went out on the connection.
    pub open spec fn sent(self, length: int) -> ControllerView {
        ControllerView {
            bytes_sent: bumped(self.bytes_sent, length),
            messages_sent: bumped(self.messages_sent, 1),
            ..self
        }
    }

    /// The state after a line of `length` bytes came in and was read as
    /// `reading`. `line` is the line without the white space at its ends.
    pub open spec fn received(
        self,
        length: int,
        line: Seq<char>,
        reading: Result<IncomingView, MessageError>,
        now: i64,
    ) -> ControllerView {
        let counted = ControllerView {
            bytes_received: bumped(self.bytes_received, length),
            messages_received: bumped(self.messages_received, 1),
            ..self
        };
        match reading {
            Ok(IncomingView::Heartbeat) => ControllerView {
                last_heartbeat_received: Some(now),
                heartbeat_received_active: true,
                ..counted
            }.with_message(MessageView::Noop, now),
            Ok(IncomingView::Controller { dip }) => {
                let noted = counted.with_log(
                    now,
                    LogDirection::Incoming,
                    "Received: Controller identification with DIP: "@ + dip,
                    Some(line),
                );
                if dip != self.dip {
                    noted.with_log(
                        now,
                        LogDirection::Info,
                        "DIP mismatch: expected "@ + self.dip + ", got "@ + dip,
                        None,
                    )
                } else {
                    noted
                }
            },
            Ok(IncomingView::Button { buttons }) => counted.with_log(
                now,
                LogDirection::Incoming,
                "Received: Button state "@ + flags_text(buttons),
                Some(line),
            ),
            Err(error) => counted.with_log(
                now,
                LogDirection::Error,
                "Failed to parse message: "@ + error_text(error, line),
                Some(line),
            ),
        }
    }
}

/// The button states to hand to the subscribers, where a line carried any.
pub open spec fn button_event(reading: Result<IncomingView, MessageError>) -> Option<Seq<bool>> {
    match reading {
        Ok(IncomingView::Button { buttons }) => Some(buttons),
        _ => None,
    }
}

fn bump(counter: u64, by: usize) -> (next: u64)
    ensures
        next == bumped(counter, by as int),
{
    counter.saturating_add(by as u64)
}

fn render_flags(flags: &Vec<bool>) -> (out: String)
    ensures
        out@ == flags_text(flags@),
{
    let mut inner: String = String::new();
    let mut i: usize = 0;
    assert(flags@.take(0) =~= Seq::<bool>::empty());
    while i < flags.len()
        invariant
            i <= flags@.len(),
            inner@ == flags_text_inner(flags@.take(i as int)),
        decreases flags@.len() - i,
    {
        let ghost before = flags@.take(i as int);
        let ghost after = flags@.take(i + 1);
        proof {
            assert(after.drop_last() =~= before);
            assert(after.last() == flags@[i as int]);
        }
        if i > 0 {
            inner = join(inner.as_str(), ", ");
        }
        inner = join(
            inner.as_str(),
            if flags[i] {
                "true"
            } else {
                "false"
            },
        );
        proof {
            if i == 0 {
                assert(before.len() == 0);
                assert(inner@ =~= flags_text_inner(after));
            } else {
                assert(inner@ =~= flags_text_inner(after));
            }
        }
        i += 1;
    }
    assert(flags@.take(flags@.len() as int) =~= flags@);
    let opened: String = join("[", inner.as_str());
    join(opened.as_str(), "]")
}

impl ControllerState {
    /// What the supervising task does on a tick.
    pub fn supervise(&self, tick: Tick) -> (action: SupervisorAction)
        ensures
            action == supervisor_action(self.connected, tick),
    {
        match tick {
            Tick::Start => SupervisorAction::Connect,
            Tick::Reconnect => if self.connected {
                SupervisorAction::Idle
            } else {
                SupervisorAction::Connect
            },
            Tick::Heartbeat => if self.connected {
                SupervisorAction::SendNoop
            } else {
                SupervisorAction::Idle
            },
            Tick::Shutdown => SupervisorAction::Stop,
        }
    }

    /// The address to connect to, as text.
    pub fn address(&self) -> (text: String)
        ensures
            text@ == address_text(self.config.ip@, self.config.port),
    {
        let mut text: String = join(self.config.ip.as_str(), ":");
        push_decimal(&mut text, self.config.port as u64);
        text
    }

    /// Counts a connection attempt and gives the address to try.
    pub fn begin_attempt(&mut self) -> (address: String)
        requires
            old(self).wf(),
        ensures
            final(self)@ == old(self)@.with_attempt(),
            address@ == address_text(old(self)@.ip, old(self)@.port),
            final(self).wf(),
    {
        self.connection_attempts = bump(self.connection_attempts, 1);
        self.address()
    }

    /// Notes that the address was understood and the connection is being made.
    pub fn attempt_started_at(&mut self, now: i64)
        requires
            old(self).wf(),
        ensures
            final(self)@ == old(self)@.with_log(
                now,
                LogDirection::Info,
                "Attempting connection to "@ + address_text(old(self)@.ip, old(self)@.port),
                None,
            ),
            final(self).wf(),
    {
        let address: String = self.address();
        let message: String = join("Attempting connection to ", address.as_str());
        self.add_log_at(LogDirection::Info, message, None, now);
    }

    /// Notes a connection attempt that failed; the first attempt of a task
    /// is noted as such.
    pub fn attempt_failed_at(&mut self, initial: bool, error: &str, now: i64)
        requires
            old(self).wf(),
        ensures
            final(self)@ == old(self)@.with_log(
                now,
                LogDirection::Error,
                (if initial {
                    "Initial connection failed: "@
                } else {
                    "Connection failed: "@
                }) + error@,
                None,
            ),
            final(self).wf(),
    {
        let message: String = if initial {
            join("Initial connection failed: ", error)
        } else {
            join("Connection failed: ", error)
        };
        self.add_log_at(LogDirection::Error, message, None, now);
    }

    /// Takes note of a connection that was made. Messages that were queued
    /// for the connection before it are dropped.
    pub fn connection_established_at(&mut self, now: i64)
        requires
            old(self).wf(),
        ensures
            final(self)@ == old(self)@.established(now),
            final(self).wf(),
            final(self).connected,
    {
        self.connected = true;
        self.stats.last_error = None;
        self.stats.connection_time = Some(now);
        self.outbox = Vec::new();
        assert(messages_view(self.outbox@) =~= Seq::<MessageView>::empty());
        self.add_log_at(
            LogDirection::Info,
            "Connection established and validated, spawning I/O task".to_owned(),
            None,
            now,
        );
    }

    /// Takes note of the end of a connection.
    pub fn connection_ended_at(&mut self, ending: Ending, detail: &str, now: i64)
        requires
            old(self).wf(),
        ensures
            final(self)@ == old(self)@.ended(ending, detail@, now),
            final(self).wf(),
            !final(self).connected,
    {
        match ending {
            Ending::Closed => {},
            Ending::ReadError => {
                self.add_log_at(LogDirection::Error, join("Read error: ", detail), None, now);
            },
            Ending::WriteError => {
                self.add_log_at(LogDirection::Error, join("Write error: ", detail), None, now);
            },
        }
        self.connected = false;
        self.add_log_at(LogDirection::Info, "Connection closed".to_owned(), None, now);
    }

    /// Counts a message that went out as `length` bytes.
    pub fn message_sent(&mut self, length: usize)
        requires
            old(self).wf(),
        ensures
            final(self)@ == old(self)@.sent(length as int),
            final(self).wf(),
    {
        self.bytes_sent = bump(self.bytes_sent, length);
        self.messages_sent = bump(self.messages_sent, 1);
    }

    /// Takes the oldest message out of the queue, if there is one.
    pub fn next_outgoing(&mut self) -> (message: Option<OutgoingMessage>)
        requires
            old(self).wf(),
        ensures
            final(self).wf(),
            match message {
                Some(m) => {
                    &&& old(self)@.outbox.len() > 0
                    &&& m@ == old(self)@.outbox[0]
                    &&& m.wf()
                    &&& final(self)@ == (ControllerView {
                        outbox: old(self)@.outbox.skip(1),
                        ..old(self)@
                    })
                },
                None => old(self)@.outbox.len() == 0 && final(self)@ == old(self)@,
            },
    {
        if self.outbox.len() == 0 {
            return None;
        }
        let ghost before = self.outbox@;
        let message: OutgoingMessage = self.outbox.remove(0);
        assert(messages_view(self.outbox@) =~= messages_view(before).skip(1));
        assert(message == before[0]);
        Some(message)
    }

    /// Brings the published numbers up to date and clears the heartbeat
    /// flags that have gone stale. Returns the sample for the throughput
    /// filter, if one is due.
    pub fn update_stats_at(&mut self, now: i64) -> (sample: Option<ThroughputSample>)
        requires
            old(self).wf(),
        ensures
            final(self)@ == old(self)@.with_stats(now),
            sample == old(self)@.throughput_sample(now),
            final(self).wf(),
            final(self)@.stats.heartbeat_received_active ==> old(self).heartbeat_received_active,
    {
        self.stats.bytes_sent = self.bytes_sent;
        self.stats.bytes_received = self.bytes_received;
        self.stats.messages_sent = self.messages_sent;
        self.stats.messages_received = self.messages_received;
        self.stats.connection_attempts = self.connection_attempts;
        self.stats.connected = self.connected;
        self.stats.last_heartbeat_received = self.last_heartbeat_received;
        self.stats.last_noop_sent = self.last_noop_sent;
        self.stats.heartbeat_received_active = self.heartbeat_received_active;
        self.stats.noop_sent_active = self.noop_sent_active;
        let sample: Option<ThroughputSample> = self.update_throughput(now);
        if self.stats.connected {
            self.stats.last_message_time = Some(now);
        }
        if let Some(last) = self.stats.last_heartbeat_received {
            if stale(last, now) {
                self.heartbeat_received_active = false;
                self.stats.heartbeat_received_active = false;
            }
        }
        if let Some(last) = self.stats.last_noop_sent {
            if stale(last, now) {
                self.noop_sent_active = false;
                self.stats.noop_sent_active = false;
            }
        }
        sample
    }

    /// Brings the published numbers up to date, by the clock.
    pub fn update_stats(&mut self) -> (sample: Option<ThroughputSample>)
        requires
            old(self).wf(),
        ensures
            exists|now: i64|
                final(self)@ == old(self)@.with_stats(now) && sample == old(self)@.throughput_sample(now),
            final(self).wf(),
    {
        let now: i64 = now_millis();
        self.update_stats_at(now)
    }

    fn update_throughput(&mut self, now: i64) -> (sample: Option<ThroughputSample>)
        requires
            old(self).wf(),
        ensures
            sample == old(self)@.throughput_sample(now),
            final(self)@ == (ControllerView {
                stats: StatsView { last_throughput_update: Some(now), ..old(self)@.stats },
                last_bytes_sent: if old(self)@.marks_move(now) {
                    old(self).bytes_sent
                } else {
                    old(self).last_bytes_sent
                },
                last_bytes_received: if old(self)@.marks_move(now) {
                    old(self).bytes_received
                } else {
                    old(self).last_bytes_received
                },
                ..old(self)@
            }),
            final(self).wf(),
    {
        let mut sample: Option<ThroughputSample> = None;
        match self.stats.last_throughput_update {
            Some(last) => {
                let elapsed: i128 = now as i128 - last as i128;
                if elapsed > 100 {
                    sample = Some(
                        ThroughputSample {
                            elapsed_ms: elapsed as u64,
                            sent: self.bytes_sent - self.last_bytes_sent,
                            received: self.bytes_received - self.last_bytes_received,
                        },
                    );
                    self.last_bytes_sent = self.bytes_sent;
                    self.last_bytes_received = self.bytes_received;
                }
            },
            None => {
                self.last_bytes_sent = self.bytes_sent;
                self.last_bytes_received = self.bytes_received;
            },
        }
        self.stats.last_throughput_update = Some(now);
        sample
    }
}

/// Queueing messages that are no noops only makes the queue longer.
pub proof fn lemma_with_messages_appends(v: ControllerView, messages: Seq<MessageView>, now: i64)
    requires
        forall|i: int| 0 <= i < messages.len() ==> !(#[trigger] messages[i] is Noop),
    ensures
        v.with_messages(messages, now) == (ControllerView { outbox: v.outbox + messages, ..v }),
    decreases messages.len(),
{
    if messages.len() == 0 {
        assert(v.outbox + messages =~= v.outbox);
    } else {
        lemma_with_messages_appends(v, messages.drop_last(), now);
        assert(!(messages[messages.len() - 1] is Noop));
        assert(v.outbox + messages =~= (v.outbox + messages.drop_last()).push(messages.last()));
    }
}

impl ControllerState {
    /// Queues a run of messages in order.
    pub fn send_messages_at(&mut self, messages: Vec<OutgoingMessage>, now: i64)
        requires
            old(self).wf(),
            forall|i: int| 0 <= i < messages@.len() ==> (#[trigger] messages@[i]).wf(),
        ensures
            final(self)@ == old(self)@.with_messages(messages_view(messages@), now),
            final(self).wf(),
    {
        let mut rest: Vec<OutgoingMessage> = messages;
        let ghost all = messages_view(messages@);
        let ghost total = messages@.len();
        assert(all.take(0) =~= Seq::<MessageView>::empty());
        while rest.len() > 0
            invariant
                self.wf(),
                rest@.len() <= total,
                all.len() == total,
                messages_view(rest@) == all.skip(total - rest@.len()),
                forall|i: int| 0 <= i < rest@.len() ==> (#[trigger] rest@[i]).wf(),
                self@ == old(self)@.with_messages(all.take(total - rest@.len()), now),
            decreases rest@.len(),
        {
            let ghost done = total - rest@.len();
            let ghost before = rest@;
            let message: OutgoingMessage = rest.remove(0);
            proof {
                assert(message == before[0]);
                assert(messages_view(before)[0] == message@);
                assert(all[done] == message@);
                assert(rest@ =~= before.skip(1));
                assert(messages_view(rest@) =~= messages_view(before).skip(1));
                assert(all.skip(done).skip(1) =~= all.skip(done + 1));
                assert(messages_view(rest@) =~= all.skip(done + 1));
                assert(all.take(done + 1).drop_last() =~= all.take(done));
                assert(all.take(done + 1).last() == message@);
            }
            self.send_message_at(message, now);
        }
        assert(all.take(total as int) =~= all);
    }

    /// Queues what restores the display on a device that has just been
    /// connected: a clear, then every row that holds more than spaces.
    pub fn force_display_refresh_at(&mut self, now: i64)
        requires
            old(self).wf(),
        ensures
            final(self)@ == old(self)@.with_messages(refresh_messages(old(self)@.back), now),
            final(self)@ == (ControllerView {
                outbox: old(self)@.outbox + refresh_messages(old(self)@.back),
                ..old(self)@
            }),
            final(self).wf(),
    {
        let messages: Vec<OutgoingMessage> = refresh_buffers(
            &self.back_buffer,
            self.display_width as usize,
            self.display_height as usize,
        );
        proof {
            assert forall|i: int| 0 <= i < messages@.len() implies (#[trigger] messages@[i]).wf()
                && !(messages_view(messages@)[i] is Noop) by {
                crate::display::lemma_refresh_sends_no_led(self@.back, i);
                assert(messages_view(messages@)[i] == messages@[i]@);
            }
            lemma_with_messages_appends(self@, messages_view(messages@), now);
        }
        self.send_messages_at(messages, now);
    }

    /// Queues what restores the display, by the clock.
    pub fn force_display_refresh(&mut self)
        requires
            old(self).wf(),
        ensures
            final(self)@ == (ControllerView {
                outbox: old(self)@.outbox + refresh_messages(old(self)@.back),
                ..old(self)@
            }),
            final(self).wf(),
    {
        let now: i64 = now_millis();
        self.force_display_refresh_at(now);
    }

    /// Restores the display after a connection was made, and notes it.
    pub fn refresh_after_connect_at(&mut self, now: i64)
        requires
            old(self).wf(),
        ensures
            final(self)@ == (ControllerView {
                outbox: old(self)@.outbox + refresh_messages(old(self)@.back),
                ..old(self)@
            }).with_log(now, LogDirection::Info, "Display state resent after reconnection"@, None),
            final(self).wf(),
    {
        self.force_display_refresh_at(now);
        self.add_log_at(
            LogDirection::Info,
            "Display state resent after reconnection".to_owned(),
            None,
            now,
        );
    }

    /// Takes in a line that was read as `reading`: counts it, and acts on
    /// the message. A heartbeat is noted and answered with a noop; an
    /// identification and a button report are logged; a line that was not
    /// understood is logged as an error. Returns the button states to hand
    /// to the subscribers, where the line carried any.
    pub fn handle_reading(
        &mut self,
        length: usize,
        line: String,
        reading: Result<IncomingMessage, MessageError>,
        now: i64,
    ) -> (event: Option<Vec<bool>>)
        requires
            old(self).wf(),
        ensures
            final(self)@ == old(self)@.received(length as int, line@, reading_view(reading), now),
            match event {
                Some(buttons) => button_event(reading_view(reading)) == Some(buttons@),
                None => button_event(reading_view(reading)) is None,
            },
            final(self).wf(),
    {
        self.bytes_received = bump(self.bytes_received, length);
        self.messages_received = bump(self.messages_received, 1);
        match reading {
            Ok(IncomingMessage::Heartbeat) => {
                self.last_heartbeat_received = Some(now);
                self.heartbeat_received_active = true;
                self.send_message_at(OutgoingMessage::Noop, now);
                None
            },
            Ok(IncomingMessage::Controller { dip }) => {
                let message: String = join(
                    "Received: Controller identification with DIP: ",
                    dip.as_str(),
                );
                self.add_log_at(LogDirection::Incoming, message, Some(line), now);
                if dip != self.dip {
                    let expected: String = join("DIP mismatch: expected ", self.dip.as_str());
                    let got: String = join(expected.as_str(), ", got ");
                    let mismatch: String = join(got.as_str(), dip.as_str());
                    self.add_log_at(LogDirection::Info, mismatch, None, now);
                }
                None
            },
            Ok(IncomingMessage::Button { buttons }) => {
                let shown: String = render_flags(&buttons);
                let message: String = join("Received: Button state ", shown.as_str());
                self.add_log_at(LogDirection::Incoming, message, Some(line), now);
                Some(buttons)
            },
            Err(error) => {
                let why: String = match error {
                    MessageError::InvalidJson => "invalid JSON".to_owned(),
                    MessageError::UnknownFormat => join("Unknown message format: ", line.as_str()),
                };
                let message: String = join("Failed to parse message: ", why.as_str());
                self.add_log_at(LogDirection::Error, message, Some(line), now);
                None
            },
        }
    }

    /// Takes in one line from the device. A line of white space alone is
    /// passed over; any other is counted with all its bytes, read as JSON
    /// and acted on.
    pub fn process_incoming_message_at(&mut self, data: &str, now: i64) -> (event: Option<
        Vec<bool>,
    >)
        requires
            old(self).wf(),
        ensures
            trimmed(data@).len() == 0 ==> final(self)@ == old(self)@ && event is None,
            trimmed(data@).len() > 0 ==> final(self)@ == old(self)@.received(
                encode_utf8(data@).len() as int,
                trimmed(data@),
                reading_of(trimmed(data@)),
                now,
            ) && (match event {
                Some(buttons) => button_event(reading_of(trimmed(data@))) == Some(buttons@),
                None => button_event(reading_of(trimmed(data@))) is None,
            }),
            final(self).wf(),
    {
        let line: String = trim(data);
        if line.as_str().unicode_len() == 0 {
            return None;
        }
        let reading: Result<IncomingMessage, MessageError> = IncomingMessage::from_json(
            line.as_str(),
        );
        self.handle_reading(data.as_bytes().len(), line, reading, now)
    }

    /// Takes in one line from the device, at the time of the clock.
    pub fn process_incoming_message(&mut self, data: &str) -> (event: Option<Vec<bool>>)
        requires
            old(self).wf(),
        ensures
            trimmed(data@).len() == 0 ==> final(self)@ == old(self)@ && event is None,
            trimmed(data@).len() > 0 ==> exists|now: i64|
                final(self)@ == old(self)@.received(
                    encode_utf8(data@).len() as int,
                    trimmed(data@),
                    reading_of(trimmed(data@)),
                    now,
                ),
            trimmed(data@).len() > 0 ==> (match event {
                Some(buttons) => button_event(reading_of(trimmed(data@))) == Some(buttons@),
                None => button_event(reading_of(trimmed(data@))) is None,
            }),
            final(self).wf(),
    {
        let now: i64 = now_millis();
        self.process_incoming_message_at(data, now)
    }
}

} // verus!
