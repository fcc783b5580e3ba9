//! The connection handle: the identifier generator, the response registry
//! and the listener of one connection, and the operations that go through
//! them.
//!
//! A [`Device`] does no I/O and keeps no clock. Whoever owns the stream
//! writes the frames that [`Device::execute_command`] hands out, feeds what
//! it reads to [`Device::receive`], and lets each call look into the
//! registry with [`Device::poll`], always with the current time in
//! milliseconds.

use crate::command::Command;
use crate::correlator::{decided, settled, PendingCall, WaitStep};
use crate::error::DeviceError;
use crate::framing::{delimiter, frames_of, rest_of, seal};
use crate::ident::{following, UniqueCommandId, FIRST_ID_BELOW, FIRST_ID_FROM};
use crate::json::json_text;
use crate::listener::{
    classified, forwarded, malformed_count, notification_views, response_count, routed, Delivery,
    Listener, ListenerAction, ListenerState, ReadEvent,
};
use crate::method::Method;
use crate::registry::{time_after, Responses, ResponsesView, DEFAULT_GRACE};
use vstd::prelude::*;

verus! {

/// Default Port of Yeelight Bulbs
pub const DEFAULT_PORT: u16 = 55443;

/// How long a call waits for its response, in milliseconds, unless the
/// device is told otherwise.
pub const DEFAULT_TIMEOUT: u64 = 10000;

/// A request that is ready to be written, with the call that waits for its
/// response.
#[derive(PartialEq, Eq, Debug)]
pub struct Outbound {
    /// The bytes to write to the stream, in one piece.
    pub frame: Vec<u8>,
    /// The call that waits for the response.
    pub call: PendingCall,
}

/// A Yeelight device.
pub struct Device {
    ip: String,
    port: u16,
    timeout: u64,
    responses: Responses,
    command_id: UniqueCommandId,
    listener: Listener,
}

/// Whether the bytes are one whole frame and nothing else: the payload in
/// front of the delimiter is what a reader cuts out, and nothing is left
/// over.
pub open spec fn one_frame(bytes: Seq<u8>) -> bool {
    &&& bytes.len() >= 2
    &&& frames_of(bytes) == seq![bytes.take(bytes.len() - 2)]
    &&& rest_of(bytes) == Seq::<u8>::empty()
}

/// The color `0xRRGGBB` of the three parts, as a number.
pub open spec fn rgb_color(r: u8, g: u8, b: u8) -> int {
    r * 65536 + g * 256 + b
}

impl Device {
    /// The IP address of the device.
    pub closed spec fn address(&self) -> Seq<char> {
        self.ip@
    }

    /// The port of the device.
    pub closed spec fn port_number(&self) -> u16 {
        self.port
    }

    /// How long a call waits for its response, in milliseconds.
    pub closed spec fn call_timeout(&self) -> u64 {
        self.timeout
    }

    /// What the registry holds.
    pub closed spec fn registry(&self) -> ResponsesView {
        self.responses@
    }

    /// The identifier that the next request gets.
    pub closed spec fn upcoming_id(&self) -> i32 {
        self.command_id@
    }

    /// Where the listener stands.
    pub closed spec fn listener_state(&self) -> ListenerState {
        self.listener.state()
    }

    /// The bytes that were read and wait for the rest of their frame.
    pub closed spec fn pending(&self) -> Seq<u8> {
        self.listener.pending()
    }

    /// Creates the handle of a connection to the device at the given
    /// address and port. Nothing is buffered or stored yet, the listener
    /// reads, and the first identifier is picked at random.
    pub fn new_with_port(ip: &str, port: u16) -> (device: Device)
        ensures
            device.address() == ip@,
            device.port_number() == port,
            device.call_timeout() == DEFAULT_TIMEOUT,
            device.registry() == ResponsesView::empty(DEFAULT_GRACE),
            FIRST_ID_FROM <= device.upcoming_id() < FIRST_ID_BELOW,
            device.listener_state() == ListenerState::Reading,
            device.pending() == Seq::<u8>::empty(),
    {
        Device {
            ip: ip.to_owned(),
            port,
            timeout: DEFAULT_TIMEOUT,
            responses: Responses::new(),
            command_id: UniqueCommandId::new(),
            listener: Listener::new(),
        }
    }

    /// Creates the handle of a connection like [`Device::new_with_port`],
    /// with a first identifier that is given and not picked at random.
    pub fn with_first_id(ip: &str, port: u16, first: i32) -> (device: Device)
        ensures
            device.address() == ip@,
            device.port_number() == port,
            device.call_timeout() == DEFAULT_TIMEOUT,
            device.registry() == ResponsesView::empty(DEFAULT_GRACE),
            device.upcoming_id() == first,
            device.listener_state() == ListenerState::Reading,
            device.pending() == Seq::<u8>::empty(),
    {
        Device {
            ip: ip.to_owned(),
            port,
            timeout: DEFAULT_TIMEOUT,
            responses: Responses::new(),
            command_id: UniqueCommandId::starting_at(first),
            listener: Listener::new(),
        }
    }

    /// Creates the handle of a connection to the device at the given
    /// address and the default port.
    pub fn new(ip: &str) -> (device: Device)
        ensures
            device.address() == ip@,
            device.port_number() == DEFAULT_PORT,
            device.call_timeout() == DEFAULT_TIMEOUT,
            device.registry() == ResponsesView::empty(DEFAULT_GRACE),
            FIRST_ID_FROM <= device.upcoming_id() < FIRST_ID_BELOW,
            device.listener_state() == ListenerState::Reading,
            device.pending() == Seq::<u8>::empty(),
    {
        Device::new_with_port(ip, DEFAULT_PORT)
    }

    /// Converts u8 RGB values into the i32 RGB format used by the Yeelight device.\
    /// The i32 RGB format is a 24-bit integer with the red, green, and blue values packed into a single integer.
    ///
    /// # Arguments
    /// * `r` - The red value.
    /// * `g` - The green value.
    /// * `b` - The blue value.
    pub fn get_rgb_color(r: u8, g: u8, b: u8) -> (color: i32)
        ensures
            color == rgb_color(r, g, b),
    {
        let red = r as u32;
        let green = g as u32;
        let blue = b as u32;
        let color = red << 16 | green << 8 | blue;
        assert(color == red * 65536 + green * 256 + blue) by (bit_vector)
            requires
                color == red << 16 | green << 8 | blue,
                red < 256,
                green < 256,
                blue < 256,
        ;
        color as i32
    }

    /// Sets the color of the device, given as separate u8 RGB values.
    ///
    /// # Arguments
    /// * `r` - The red value.
    /// * `g` - The green value.
    /// * `b` - The blue value.
    pub fn set_rgb(&mut self, r: u8, g: u8, b: u8, now: u64) -> (sent: Result<
        Outbound,
        DeviceError,
    >)
        ensures
            old(self).issues(
                *final(self),
                Method::SetRgb(rgb_color(r, g, b) as i32, None, None),
                now,
                sent,
            ),
    {
        self.execute_method(Method::SetRgb(Device::get_rgb_color(r, g, b), None, None), now)
    }

    /// Sets the background color of the device, given as separate u8 RGB values.
    ///
    /// # Arguments
    /// * `r` - The red value.
    /// * `g` - The green value.
    /// * `b` - The blue value.
    pub fn set_bg_rgb(&mut self, r: u8, g: u8, b: u8, now: u64) -> (sent: Result<
        Outbound,
        DeviceError,
    >)
        ensures
            old(self).issues(
                *final(self),
                Method::BgSetRgb(rgb_color(r, g, b) as i32, None, None),
                now,
                sent,
            ),
    {
        self.execute_method(Method::BgSetRgb(Device::get_rgb_color(r, g, b), None, None), now)
    }

    /// Toggles the devices power state.
    /// If the device is on, it will be turned off.
    /// If the device is off, it will be turned on.
    pub fn toggle(&mut self, now: u64) -> (sent: Result<Outbound, DeviceError>)
        ensures
            old(self).issues(*final(self), Method::Toggle, now, sent),
    {
        self.execute_method(Method::Toggle, now)
    }

    /// Sets the power state of the device to on.
    pub fn power_on(&mut self, now: u64) -> (sent: Result<Outbound, DeviceError>)
        ensures
            old(self).issues(*final(self), Method::SetPower(true, None, None), now, sent),
    {
        self.execute_method(Method::SetPower(true, None, None), now)
    }

    /// Sets the power state of the device to off.
    pub fn power_off(&mut self, now: u64) -> (sent: Result<Outbound, DeviceError>)
        ensures
            old(self).issues(*final(self), Method::SetPower(false, None, None), now, sent),
    {
        self.execute_method(Method::SetPower(false, None, None), now)
    }

    /// Whether address, port and timeout are those of `other`.
    pub open spec fn same_settings(self, other: Device) -> bool {
        &&& self.address() == other.address()
        &&& self.port_number() == other.port_number()
        &&& self.call_timeout() == other.call_timeout()
    }

    /// What issuing a request for `method` at `now` comes to: the request
    /// gets the upcoming identifier, which is used up either way. While the
    /// connection is open, the frame is the request's text with the
    /// delimiter behind it, and the registry expects the response until the
    /// timeout has passed. Once the connection is closed, nothing is handed
    /// out and the registry stays as it is.
    pub open spec fn issues(
        self,
        after: Device,
        method: Method,
        now: u64,
        sent: Result<Outbound, DeviceError>,
    ) -> bool {
        let id = self.upcoming_id();
        &&& after.upcoming_id() == following(id)
        &&& after.same_settings(self)
        &&& after.listener_state() == self.listener_state()
        &&& after.pending() == self.pending()
        &&& match sent {
            Ok(outbound) => {
                &&& self.registry().closed is None
                &&& outbound.frame@ == json_text(
                    crate::command::request_json(id, method.wire_name(), method.wire_params()),
                ) + delimiter()
                &&& one_frame(outbound.frame@)
                &&& outbound.call.id == id
                &&& outbound.call.deadline == time_after(now, self.call_timeout())
                &&& after.registry() == self.registry().expecting(id, outbound.call.deadline)
            },
            Err(error) => {
                &&& self.registry().closed is Some
                &&& error == DeviceError::ConnectionClosed
                &&& after.registry() == self.registry()
            },
        }
    }

    /// Executes a given [`Method`] on the device by creating a new command with a unique id.
    pub fn execute_method(&mut self, method: Method, now: u64) -> (sent: Result<
        Outbound,
        DeviceError,
    >)
        ensures
            old(self).issues(*final(self), method, now, sent),
    {
        let command = Command::new(self.command_id.next(), method);
        self.execute_command(&command, now)
    }

    /// Executes a given [`Command`] on the device: hands out the frame to
    /// write and begins to wait for the response. Once the connection is
    /// closed, no request goes out any more.
    pub fn execute_command(&mut self, command: &Command, now: u64) -> (sent: Result<
        Outbound,
        DeviceError,
    >)
        ensures
            final(self).upcoming_id() == old(self).upcoming_id(),
            final(self).same_settings(*old(self)),
            final(self).listener_state() == old(self).listener_state(),
            final(self).pending() == old(self).pending(),
            match sent {
                Ok(outbound) => {
                    &&& old(self).registry().closed is None
                    &&& outbound.frame@ == json_text(command.wire_json()) + delimiter()
                    &&& one_frame(outbound.frame@)
                    &&& outbound.call.id == command.id
                    &&& outbound.call.deadline == time_after(now, old(self).call_timeout())
                    &&& final(self).registry() == old(self).registry().expecting(
                        command.id,
                        outbound.call.deadline,
                    )
                },
                Err(error) => {
                    &&& old(self).registry().closed is Some
                    &&& error == DeviceError::ConnectionClosed
                    &&& final(self).registry() == old(self).registry()
                },
            },
    {
        if self.responses.terminal_error().is_some() {
            return Err(DeviceError::ConnectionClosed);
        }
        let payload = command.to_bytes();
        let frame = seal(payload.as_slice());
        proof {
            let nothing = Seq::<u8>::empty();
            assert(!crate::framing::has_frame(nothing));
            assert(frame@ == payload@ + delimiter() + nothing);
            crate::framing::lemma_frames_of_sealed(payload@, nothing);
            assert(frame@.take(frame@.len() - 2) == payload@);
        }
        let call = PendingCall::begin(&mut self.responses, command.id, now, self.timeout);
        Ok(Outbound { frame, call })
    }

    /// Lets a call look into the registry at `now`.
    pub fn poll(&mut self, call: &PendingCall, now: u64) -> (step: WaitStep)
        ensures
            step.state() == decided(old(self).registry(), call.id, call.deadline, now),
            final(self).registry() == settled(old(self).registry(), call.id, step.state()),
            step matches WaitStep::Matched(response) ==> response.id == call.id && old(
                self,
            ).registry().entries[call.id] == response@,
            step matches WaitStep::Wait(remaining) ==> remaining == call.deadline - now,
            final(self).upcoming_id() == old(self).upcoming_id(),
            final(self).same_settings(*old(self)),
            final(self).listener_state() == old(self).listener_state(),
            final(self).pending() == old(self).pending(),
    {
        call.poll(&mut self.responses, now)
    }

    /// Takes in the outcome of one read at the time `now`; see
    /// [`Listener::on_event`].
    pub fn receive(&mut self, event: ReadEvent, now: u64) -> (delivery: Delivery)
        ensures
            final(self).upcoming_id() == old(self).upcoming_id(),
            final(self).same_settings(*old(self)),
            old(self).listener_state() != ListenerState::Reading ==> {
                &&& final(self).listener_state() == old(self).listener_state()
                &&& final(self).pending() == old(self).pending()
                &&& final(self).registry() == old(self).registry()
                &&& delivery.action == ListenerAction::Stop
                &&& delivery.stored == 0
                &&& delivery.discarded == 0
                &&& delivery.notifications@.len() == 0
            },
            old(self).listener_state() == ListenerState::Reading ==> match event {
                ReadEvent::Data(bytes) => {
                    let frames = classified(frames_of(old(self).pending() + bytes@));
                    &&& final(self).listener_state() == ListenerState::Reading
                    &&& final(self).pending() == rest_of(old(self).pending() + bytes@)
                    &&& final(self).registry() == routed(
                        old(self).registry().evicted(now),
                        frames,
                        now,
                    )
                    &&& delivery.action == ListenerAction::Read
                    &&& delivery.stored == response_count(frames)
                    &&& delivery.discarded == malformed_count(frames)
                    &&& notification_views(delivery.notifications@) == forwarded(frames)
                },
                ReadEvent::EndOfStream => {
                    &&& final(self).listener_state() == ListenerState::Closed
                    &&& final(self).pending() == old(self).pending()
                    &&& final(self).registry() == old(self).registry().closed_with(
                        DeviceError::ConnectionClosed,
                    )
                    &&& delivery.action == ListenerAction::Stop
                    &&& delivery.stored == 0
                    &&& delivery.discarded == 0
                    &&& delivery.notifications@.len() == 0
                },
                ReadEvent::WouldBlock => {
                    &&& final(self).listener_state() == ListenerState::Reading
                    &&& final(self).pending() == old(self).pending()
                    &&& final(self).registry() == old(self).registry().evicted(now)
                    &&& delivery.action == ListenerAction::Pause
                    &&& delivery.stored == 0
                    &&& delivery.discarded == 0
                    &&& delivery.notifications@.len() == 0
                },
                ReadEvent::Failed => {
                    &&& final(self).listener_state() == ListenerState::Failed
                    &&& final(self).pending() == old(self).pending()
                    &&& final(self).registry() == old(self).registry().closed_with(
                        DeviceError::IoFailure,
                    )
                    &&& delivery.action == ListenerAction::Stop
                    &&& delivery.stored == 0
                    &&& delivery.discarded == 0
                    &&& delivery.notifications@.len() == 0
                },
            },
    {
        self.listener.on_event(event, &mut self.responses, now)
    }

    /// Closes the connection with the given terminal error: the registry is
    /// closed, so that every call that waits or comes later ends, and the
    /// listener takes in nothing more. Used when a write fails and when the
    /// owner of the connection ends it.
    pub fn close(&mut self, error: DeviceError)
        ensures
            final(self).registry() == old(self).registry().closed_with(error),
            final(self).listener_state() == match old(self).listener_state() {
                ListenerState::Reading => ListenerState::Closed,
                ended => ended,
            },
            final(self).pending() == old(self).pending(),
            final(self).upcoming_id() == old(self).upcoming_id(),
            final(self).same_settings(*old(self)),
    {
        self.responses.close(error);
        self.listener.stop();
    }

    /// The IP address of the device.
    pub fn ip(&self) -> (ip: &String)
        ensures
            ip@ == self.address(),
    {
        &self.ip
    }

    /// The port of the device.
    pub fn port(&self) -> (port: u16)
        ensures
            port == self.port_number(),
    {
        self.port
    }

    /// How long a call waits for its response, in milliseconds.
    pub fn timeout(&self) -> (timeout: u64)
        ensures
            timeout == self.call_timeout(),
    {
        self.timeout
    }

    /// Sets how long a call waits for its response, in milliseconds. Calls
    /// that wait already keep their deadline.
    pub fn set_timeout(&mut self, timeout: u64)
        ensures
            final(self).call_timeout() == timeout,
            final(self).address() == old(self).address(),
            final(self).port_number() == old(self).port_number(),
            final(self).registry() == old(self).registry(),
            final(self).upcoming_id() == old(self).upcoming_id(),
            final(self).listener_state() == old(self).listener_state(),
            final(self).pending() == old(self).pending(),
    {
        self.timeout = timeout;
    }

    /// The terminal error, once the connection is closed.
    pub fn terminal_error(&self) -> (error: Option<DeviceError>)
        ensures
            error == self.registry().closed,
    {
        self.responses.terminal_error()
    }

    /// The count of changes of the registry, to be handed to
    /// [`Device::changed_since`] after a wait.
    pub fn change_count(&self) -> (count: u64)
        ensures
            count == self.registry().changes,
    {
        self.responses.change_count()
    }

    /// Whether a call that saw the count of changes at `seen` has reason to
    /// look again.
    pub fn changed_since(&self, seen: u64) -> (changed: bool)
        ensures
            changed == (self.registry().changes != seen || self.registry().closed is Some),
    {
        self.responses.changed_since(seen)
    }

    /// How many responses wait in the registry.
    pub fn stored(&self) -> (count: usize)
        ensures
            count == self.registry().entries.len(),
    {
        self.responses.len()
    }
}

} // verus!
