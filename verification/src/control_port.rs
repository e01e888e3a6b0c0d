//! The handle through which the rest of the program uses one device: it
//! owns the device's state once started, and keeps a copy of what was last
//! published about it.

use std::collections::VecDeque;
use vstd::prelude::*;
use crate::clock::now_millis;
use crate::controller::{
    log_view,
    text_view,
    ControllerConfig,
    ControllerState,
    ControllerStats,
    ControllerView,
    LogEntry,
    StatsView,
    ThroughputSample,
};
use crate::display::{blank_grid, commit_messages, written};
use crate::message::{messages_view, MessageView, OutgoingMessage};

verus! {

/// What is published about a device, as handed out by its handle.
pub type ControlPortStats = ControllerStats;

/// The connection as the handle last saw it.
#[derive(Debug, Clone)]
pub struct ControlPortState {
    pub connected: bool,
    pub last_message_time: Option<i64>,
    pub connection_time: Option<i64>,
    pub last_error: Option<String>,
}

/// Why the handle could not act.
#[derive(Clone, Copy, Debug, PartialEq, Eq, Structural)]
pub enum ControlPortError {
    /// The handle was not started, so there is no device state to act on.
    NoControllerState,
    /// The message cannot be written down.
    MessageTooLong,
}

pub struct ControlPort {
    pub dip: String,
    pub config: ControllerConfig,
    pub state: ControlPortState,
    pub stats: ControlPortStats,
    pub logs: VecDeque<LogEntry>,
    pub controller_state: Option<ControllerState>,
}

fn copy_text(text: &String) -> (copy: String)
    ensures
        copy@ == text@,
{
    text.clone()
}

fn copy_optional_text(text: &Option<String>) -> (copy: Option<String>)
    ensures
        text_view(copy) == text_view(*text),
{
    match text {
        Some(t) => Some(copy_text(t)),
        None => None,
    }
}

/// A copy of what is published about a device.
pub fn copy_stats(stats: &ControllerStats) -> (copy: ControllerStats)
    ensures
        copy@ == stats@,
{
    ControllerStats {
        dip: copy_text(&stats.dip),
        ip: copy_text(&stats.ip),
        port: stats.port,
        connected: stats.connected,
        last_message_time: stats.last_message_time,
        connection_time: stats.connection_time,
        bytes_sent: stats.bytes_sent,
        bytes_received: stats.bytes_received,
        messages_sent: stats.messages_sent,
        messages_received: stats.messages_received,
        connection_attempts: stats.connection_attempts,
        last_error: copy_optional_text(&stats.last_error),
        last_throughput_update: stats.last_throughput_update,
        last_heartbeat_received: stats.last_heartbeat_received,
        last_noop_sent: stats.last_noop_sent,
        heartbeat_received_active: stats.heartbeat_received_active,
        noop_sent_active: stats.noop_sent_active,
    }
}

/// A copy of a log, entry by entry.
pub fn copy_log(log: &VecDeque<LogEntry>) -> (copy: VecDeque<LogEntry>)
    ensures
        log_view(copy@) == log_view(log@),
{
    let mut copy: VecDeque<LogEntry> = VecDeque::new();
    let mut i: usize = 0;
    while i < log.len()
        invariant
            i <= log@.len(),
            copy@.len() == i,
            forall|k: int| 0 <= k < i ==> (#[trigger] copy@[k])@ == log@[k]@,
        decreases log@.len() - i,
    {
        let entry: &LogEntry = &log[i];
        copy.push_back(
            LogEntry {
                timestamp: entry.timestamp,
                direction: entry.direction,
                message: copy_text(&entry.message),
                raw_data: copy_optional_text(&entry.raw_data),
            },
        );
        i += 1;
    }
    assert(log_view(copy@) =~= log_view(log@));
    copy
}

impl ControlPort {
    /// The handle is sound if the device state it owns is.
    pub open spec fn wf(&self) -> bool {
        self.controller_state matches Some(c) ==> c.wf()
    }

    /// Tests `wf`.
    pub fn is_valid(&self) -> (valid: bool)
        ensures
            valid == self.wf(),
    {
        match &self.controller_state {
            Some(c) => c.is_valid(),
            None => true,
        }
    }

    /// The device state as plain values, where the handle was started.
    pub open spec fn controller(&self) -> Option<ControllerView> {
        match self.controller_state {
            Some(c) => Some(c@),
            None => None,
        }
    }

    /// A handle that has not been started.
    pub fn new(dip: String, config: ControllerConfig) -> (port: ControlPort)
        ensures
            port.controller_state is None,
            port.wf(),
            port.dip@ == dip@,
            port.config == config,
            !port.state.connected,
            port.stats@ == ControllerView::initial(dip@, config.ip@, config.port).stats,
            port.logs@.len() == 0,
    {
        let stats = ControllerStats {
            dip: copy_text(&dip),
            ip: copy_text(&config.ip),
            port: config.port,
            connected: false,
            last_message_time: None,
            connection_time: None,
            bytes_sent: 0,
            bytes_received: 0,
            messages_sent: 0,
            messages_received: 0,
            connection_attempts: 0,
            last_error: None,
            last_throughput_update: None,
            last_heartbeat_received: None,
            last_noop_sent: None,
            heartbeat_received_active: false,
            noop_sent_active: false,
        };
        ControlPort {
            dip,
            config,
            state: ControlPortState {
                connected: false,
                last_message_time: None,
                connection_time: None,
                last_error: None,
            },
            stats,
            logs: VecDeque::new(),
            controller_state: None,
        }
    }

    /// Gives the handle a fresh device state.
    pub fn start(&mut self)
        ensures
            final(self).controller() == Some(
                ControllerView::initial(old(self).dip@, old(self).config.ip@, old(self).config.port),
            ),
            final(self).wf(),
            final(self).dip == old(self).dip,
            final(self).config == old(self).config,
            final(self).state == old(self).state,
            final(self).stats == old(self).stats,
            final(self).logs == old(self).logs,
    {
        let config = ControllerConfig { ip: copy_text(&self.config.ip), port: self.config.port };
        self.controller_state = Some(ControllerState::new(copy_text(&self.dip), config));
    }

    pub fn get_controller_state(&self) -> (state: Option<&ControllerState>)
        ensures
            match state {
                Some(c) => self.controller_state == Some(*c),
                None => self.controller_state is None,
            },
    {
        self.controller_state.as_ref()
    }

    /// Notes on the handle whether the device is connected; a connection
    /// is stamped `now` and clears the last error.
    pub fn update_connection_state_at(&mut self, connected: bool, now: i64)
        ensures
            final(self).state.connected == connected,
            connected ==> final(self).state.connection_time == Some(now) && final(self).state.last_error is None,
            !connected ==> final(self).state.connection_time == old(self).state.connection_time
                && final(self).state.last_error == old(self).state.last_error,
            final(self).state.last_message_time == old(self).state.last_message_time,
            final(self).dip == old(self).dip,
            final(self).config == old(self).config,
            final(self).stats == old(self).stats,
            final(self).logs == old(self).logs,
            final(self).controller_state == old(self).controller_state,
    {
        self.state.connected = connected;
        if connected {
            self.state.connection_time = Some(now);
            self.state.last_error = None;
        }
    }

    /// Notes on the handle whether the device is connected, by the clock.
    pub fn update_connection_state(&mut self, connected: bool)
        ensures
            final(self).state.connected == connected,
            connected ==> final(self).state.connection_time is Some && final(self).state.last_error is None,
            !connected ==> final(self).state.connection_time == old(self).state.connection_time
                && final(self).state.last_error == old(self).state.last_error,
            final(self).state.last_message_time == old(self).state.last_message_time,
            final(self).dip == old(self).dip,
            final(self).config == old(self).config,
            final(self).stats == old(self).stats,
            final(self).logs == old(self).logs,
            final(self).controller_state == old(self).controller_state,
    {
        let now: i64 = now_millis();
        self.update_connection_state_at(connected, now);
    }

    /// Brings the device's published numbers up to date, copies them and
    /// the log to the handle, and hands out a copy. A handle that was not
    /// started hands out what it has. With the numbers comes the sample for
    /// the throughput filter, if one is due.
    pub fn get_stats_at(&mut self, now: i64) -> (published: (ControlPortStats, Option<ThroughputSample>))
        requires
            old(self).wf(),
        ensures
            final(self).wf(),
            published.0@ == final(self).stats@,
            match old(self).controller() {
                Some(c) => {
                    &&& final(self).controller() == Some(c.with_stats(now))
                    &&& final(self).stats@ == (StatsView {
                        dip: old(self).stats@.dip,
                        ip: old(self).stats@.ip,
                        port: old(self).stats@.port,
                        ..c.with_stats(now).stats
                    })
                    &&& log_view(final(self).logs@) == c.log
                    &&& final(self).state.connected == c.connected
                    &&& published.1 == c.throughput_sample(now)
                },
                None => {
                    &&& final(self).controller() is None
                    &&& final(self).stats@ == old(self).stats@
                    &&& final(self).logs == old(self).logs
                    &&& final(self).state == old(self).state
                    &&& published.1 is None
                },
            },
    {
        let mut sample: Option<ThroughputSample> = None;
        let mut connected: Option<bool> = None;
        match &mut self.controller_state {
            Some(controller) => {
                sample = controller.update_stats_at(now);
                self.stats.connected = controller.stats.connected;
                self.stats.last_message_time = controller.stats.last_message_time;
                self.stats.connection_time = controller.stats.connection_time;
                self.stats.bytes_sent = controller.stats.bytes_sent;
                self.stats.bytes_received = controller.stats.bytes_received;
                self.stats.messages_sent = controller.stats.messages_sent;
                self.stats.messages_received = controller.stats.messages_received;
                self.stats.connection_attempts = controller.stats.connection_attempts;
                self.stats.last_error = copy_optional_text(&controller.stats.last_error);
                self.stats.last_throughput_update = controller.stats.last_throughput_update;
                self.stats.last_heartbeat_received = controller.stats.last_heartbeat_received;
                self.stats.last_noop_sent = controller.stats.last_noop_sent;
                self.stats.heartbeat_received_active = controller.stats.heartbeat_received_active;
                self.stats.noop_sent_active = controller.stats.noop_sent_active;
                self.logs = copy_log(&controller.log);
                connected = Some(controller.connected);
            },
            None => {},
        }
        if let Some(c) = connected {
            self.update_connection_state_at(c, now);
        }
        (copy_stats(&self.stats), sample)
    }

    /// Marks the handle as shut down.
    pub fn shutdown(&mut self)
        ensures
            !final(self).state.connected,
            text_view(final(self).state.last_error) == Some("Shutdown"@),
            final(self).state.last_message_time == old(self).state.last_message_time,
            final(self).state.connection_time == old(self).state.connection_time,
            final(self).dip == old(self).dip,
            final(self).config == old(self).config,
            final(self).stats == old(self).stats,
            final(self).logs == old(self).logs,
            final(self).controller_state == old(self).controller_state,
    {
        self.state.connected = false;
        self.state.last_error = Some("Shutdown".to_owned());
    }
}

impl ControlPort {
    /// What the rest of the handle keeps while the device state changes.
    pub open spec fn same_handle(&self, other: &ControlPort) -> bool {
        &&& self.dip == other.dip
        &&& self.config == other.config
        &&& self.state == other.state
        &&& self.stats == other.stats
        &&& self.logs == other.logs
    }

    /// Fills the back buffer with spaces; nothing happens on a handle that
    /// was not started.
    pub fn clear_display(&mut self)
        requires
            old(self).wf(),
        ensures
            final(self).wf(),
            final(self).same_handle(old(self)),
            match old(self).controller_state {
                Some(c) => final(self).controller() == Some(
                    ControllerView {
                        back: blank_grid(c.display_width as int, c.display_height as int),
                        ..c@
                    },
                ),
                None => final(self).controller_state is None,
            },
    {
        match &mut self.controller_state {
            Some(controller) => {
                controller.clear_display();
            },
            None => {},
        }
    }

    /// Writes text into the back buffer; nothing happens on a handle that
    /// was not started.
    pub fn write_display(&mut self, x: u16, y: u16, text: &str)
        requires
            old(self).wf(),
        ensures
            final(self).wf(),
            final(self).same_handle(old(self)),
            match old(self).controller_state {
                Some(c) => final(self).controller() == Some(
                    ControllerView {
                        back: written(c@.back, c.display_width as int, x as int, y as int, text@),
                        ..c@
                    },
                ),
                None => final(self).controller_state is None,
            },
    {
        match &mut self.controller_state {
            Some(controller) => {
                controller.write_display(x, y, text);
            },
            None => {},
        }
    }

    /// Commits the display and queues the messages that the commit calls
    /// for, in order. Fails on a handle that was not started.
    pub fn commit_display_at(&mut self, now: i64) -> (done: Result<(), ControlPortError>)
        requires
            old(self).wf(),
        ensures
            final(self).wf(),
            final(self).same_handle(old(self)),
            match old(self).controller_state {
                Some(c) => {
                    &&& done is Ok
                    &&& final(self).controller() == Some(
                        ControllerView {
                            front: c@.back,
                            outbox: c@.outbox + commit_messages(
                                c@.front,
                                c@.back,
                                c.display_width as int,
                            ),
                            ..c@
                        },
                    )
                },
                None => done == Err::<(), ControlPortError>(ControlPortError::NoControllerState)
                    && final(self).controller_state is None,
            },
    {
        match &mut self.controller_state {
            Some(controller) => {
                let ghost before = controller@;
                let ghost width = controller.display_width as int;
                let messages: Vec<OutgoingMessage> = controller.commit_display();
                proof {
                    assert forall|i: int| 0 <= i < messages@.len() implies !(#[trigger] messages_view(
                        messages@,
                    )[i] is Noop) by {
                        crate::display::lemma_commit_sends_no_led(
                            before.front,
                            before.back,
                            width,
                            i,
                        );
                    }
                    crate::controller::lemma_with_messages_appends(
                        controller@,
                        messages_view(messages@),
                        now,
                    );
                }
                controller.send_messages_at(messages, now);
                Ok(())
            },
            None => Err(ControlPortError::NoControllerState),
        }
    }

    /// Commits the display and queues the messages that the commit calls for.
    pub fn commit_display(&mut self) -> (done: Result<(), ControlPortError>)
        requires
            old(self).wf(),
        ensures
            final(self).wf(),
            final(self).same_handle(old(self)),
            match old(self).controller_state {
                Some(c) => {
                    &&& done is Ok
                    &&& final(self).controller() == Some(
                        ControllerView {
                            front: c@.back,
                            outbox: c@.outbox + commit_messages(
                                c@.front,
                                c@.back,
                                c.display_width as int,
                            ),
                            ..c@
                        },
                    )
                },
                None => done == Err::<(), ControlPortError>(ControlPortError::NoControllerState)
                    && final(self).controller_state is None,
            },
    {
        let now: i64 = now_millis();
        self.commit_display_at(now)
    }

    /// Queues a message for the device. Fails on a handle that was not
    /// started, and for a message that cannot be written down.
    pub fn send_message_at(&mut self, message: OutgoingMessage, now: i64) -> (done: Result<
        (),
        ControlPortError,
    >)
        requires
            old(self).wf(),
        ensures
            final(self).wf(),
            final(self).same_handle(old(self)),
            match old(self).controller_state {
                Some(c) => if message.wf() {
                    done is Ok && final(self).controller() == Some(c@.with_message(message@, now))
                } else {
                    done == Err::<(), ControlPortError>(ControlPortError::MessageTooLong) && final(self).controller() == Some(c@)
                },
                None => done == Err::<(), ControlPortError>(ControlPortError::NoControllerState)
                    && final(self).controller_state is None,
            },
    {
        match &mut self.controller_state {
            Some(controller) => {
                if message.fits_wire() {
                    controller.send_message_at(message, now);
                    Ok(())
                } else {
                    Err(ControlPortError::MessageTooLong)
                }
            },
            None => Err(ControlPortError::NoControllerState),
        }
    }

    /// Queues a message for the device; a noop is stamped by the clock.
    pub fn send_message(&mut self, message: OutgoingMessage) -> (done: Result<(), ControlPortError>)
        requires
            old(self).wf(),
        ensures
            final(self).wf(),
            final(self).same_handle(old(self)),
            match old(self).controller_state {
                Some(c) => if message.wf() {
                    done is Ok && exists|now: i64|
                        final(self).controller() == Some(c@.with_message(message@, now))
                } else {
                    done == Err::<(), ControlPortError>(ControlPortError::MessageTooLong) && final(self).controller() == Some(c@)
                },
                None => done == Err::<(), ControlPortError>(ControlPortError::NoControllerState)
                    && final(self).controller_state is None,
            },
    {
        let now: i64 = now_millis();
        self.send_message_at(message, now)
    }

    /// Queues the colours for the LEDs of the device. Nothing is queued on
    /// a handle that was not started, nor for more than 65535 LEDs.
    pub fn set_leds(&mut self, rgb_values: Vec<(u8, u8, u8)>)
        requires
            old(self).wf(),
        ensures
            final(self).wf(),
            final(self).same_handle(old(self)),
            match old(self).controller_state {
                Some(c) => final(self).controller() == Some(
                    if rgb_values@.len() <= 0xFFFF {
                        ControllerView {
                            outbox: c@.outbox.push(MessageView::Led { rgb_values: rgb_values@ }),
                            ..c@
                        }
                    } else {
                        c@
                    },
                ),
                None => final(self).controller_state is None,
            },
    {
        let _ = self.send_message_at(OutgoingMessage::Led { rgb_values }, 0);
    }

    /// Queues the states for the backlights of the device. Nothing is
    /// queued on a handle that was not started.
    pub fn set_backlights(&mut self, states: Vec<bool>)
        requires
            old(self).wf(),
        ensures
            final(self).wf(),
            final(self).same_handle(old(self)),
            match old(self).controller_state {
                Some(c) => final(self).controller() == Some(
                    ControllerView {
                        outbox: c@.outbox.push(MessageView::Backlight { states: states@ }),
                        ..c@
                    },
                ),
                None => final(self).controller_state is None,
            },
    {
        let _ = self.send_message_at(OutgoingMessage::Backlight { states }, 0);
    }
}

} // verus!
