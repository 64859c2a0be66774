//! The session driver: a state machine that decides, call by call and transport
//! outcome by transport outcome, what the caller must do with its transport.
//!
//! The caller owns the transport. It calls `manage_connection`, `publish` or
//! `read`, carries out the `Command` it gets back, and reports what the transport
//! did through `on_outcome`, until a command ends the call (`Finish`, `Close` or
//! `Deliver`).
use vstd::prelude::*;
use crate::codec::{decode, encode, DecodeError, EncodeError};
use crate::packet::{Connect, ConnectModel, Packet, PacketModel, Publish, PublishModel};
use crate::wire::{decoded, encodable, fields_fit, frame_header, wire_bytes, Decoded, FrameHeader};

verus! {

/// The broker's IPv4 address and port.
#[derive(Clone, Copy, Debug, PartialEq, Eq)]
pub struct Endpoint {
    pub addr: [u8; 4],
    pub port: u16,
}

/// What a driver is built from: reused verbatim on every (re)connect.
pub struct Config {
    pub broker: Endpoint,
    pub client_id: String,
    pub keep_alive: u16,
    pub username: Option<String>,
    pub password: Option<Vec<u8>>,
    /// The size of the buffer each outbound packet is encoded into.
    pub buffer_capacity: usize,
}

pub struct ConfigModel {
    pub broker: Endpoint,
    pub client_id: Seq<char>,
    pub keep_alive: u16,
    pub username: Option<Seq<char>>,
    pub password: Option<Seq<u8>>,
    pub buffer_capacity: nat,
}

impl View for Config {
    type V = ConfigModel;

    open spec fn view(&self) -> ConfigModel {
        ConfigModel {
            broker: self.broker,
            client_id: self.client_id@,
            keep_alive: self.keep_alive,
            username: match self.username {
                Some(u) => Some(u@),
                None => None,
            },
            password: match self.password {
                Some(p) => Some(p@),
                None => None,
            },
            buffer_capacity: self.buffer_capacity as nat,
        }
    }
}

/// The client identifier a driver uses unless told otherwise.
pub const DEFAULT_CLIENT_ID: &'static str = "plants_wc";

/// The keep-alive interval, in seconds, announced unless told otherwise.
pub const DEFAULT_KEEP_ALIVE: u16 = 30;

/// The encode buffer size used unless told otherwise.
pub const DEFAULT_BUFFER_CAPACITY: usize = 4096;

/// Where the driver stands.
#[derive(Clone, Copy, Debug, PartialEq, Eq, Structural)]
pub enum Phase {
    /// No session: the next maintenance call runs the handshake.
    Disconnected,
    /// Waiting for the transport to open.
    Opening,
    /// Waiting for the CONNECT bytes to be written.
    SendingConnect,
    /// Waiting for the broker's answer to CONNECT.
    AwaitingConnack,
    /// The session is up.
    Connected,
    /// The session is up; a PUBLISH is being written.
    Publishing,
    /// The session is up; an inbound frame is being read.
    Reading,
}

/// Errors a call can end with.
#[derive(Debug, PartialEq)]
pub enum MqttError {
    /// The broker refused the session: retrying with the same credentials fails alike.
    ConnectionRefused(mqttrs::ConnectReturnCode),
    EncodingError(EncodeError),
    DecodingError(DecodeError),
    /// The frame read ends before the packet does.
    NoPacket,
    /// The transport reached end of stream.
    EOF,
    /// A well-formed packet other than the one the protocol calls for.
    WrongMessageReceived,
    /// The transport could not connect to the broker.
    ConnectError,
    /// The transport failed to read or write.
    TcpError,
    /// No session is up: call `manage_connection` first.
    NotConnected,
}

/// An error with its codec details left out.
pub enum ErrorKind {
    ConnectionRefused(mqttrs::ConnectReturnCode),
    Encoding,
    Decoding,
    NoPacket,
    EOF,
    WrongMessageReceived,
    ConnectError,
    TcpError,
    NotConnected,
}

impl View for MqttError {
    type V = ErrorKind;

    open spec fn view(&self) -> ErrorKind {
        match self {
            MqttError::ConnectionRefused(c) => ErrorKind::ConnectionRefused(*c),
            MqttError::EncodingError(_) => ErrorKind::Encoding,
            MqttError::DecodingError(_) => ErrorKind::Decoding,
            MqttError::NoPacket => ErrorKind::NoPacket,
            MqttError::EOF => ErrorKind::EOF,
            MqttError::WrongMessageReceived => ErrorKind::WrongMessageReceived,
            MqttError::ConnectError => ErrorKind::ConnectError,
            MqttError::TcpError => ErrorKind::TcpError,
            MqttError::NotConnected => ErrorKind::NotConnected,
        }
    }
}

/// What the transport did with the last command.
#[derive(Debug, PartialEq)]
pub enum Outcome {
    /// `Open` succeeded.
    Opened,
    /// `Open` failed.
    OpenFailed,
    /// `Write` wrote every byte.
    Written,
    /// `Write` failed.
    WriteFailed,
    /// `Read` returned these bytes (none at end of stream).
    Received(Vec<u8>),
    /// `Read` failed.
    ReadFailed,
}

pub enum OutcomeModel {
    Opened,
    OpenFailed,
    Written,
    WriteFailed,
    Received(Seq<u8>),
    ReadFailed,
}

impl View for Outcome {
    type V = OutcomeModel;

    open spec fn view(&self) -> OutcomeModel {
        match self {
            Outcome::Opened => OutcomeModel::Opened,
            Outcome::OpenFailed => OutcomeModel::OpenFailed,
            Outcome::Written => OutcomeModel::Written,
            Outcome::WriteFailed => OutcomeModel::WriteFailed,
            Outcome::Received(b) => OutcomeModel::Received(b@),
            Outcome::ReadFailed => OutcomeModel::ReadFailed,
        }
    }
}

/// What the caller must do next.
#[derive(Debug, PartialEq)]
pub enum Command {
    /// Drop any connection the transport holds, then connect it to the broker.
    Open(Endpoint),
    /// Write all of these bytes.
    Write(Vec<u8>),
    /// Read once and report the bytes that came.
    Read,
    /// Close the transport; the call ends with this error.
    Close(MqttError),
    /// The call ends with this result.
    Finish(Result<(), MqttError>),
    /// The call ends: this packet came in.
    Deliver(Packet),
}

pub enum CommandModel {
    Open(Endpoint),
    Write(Seq<u8>),
    Read,
    Close(ErrorKind),
    Finish(Result<(), ErrorKind>),
    Deliver(PacketModel),
}

impl View for Command {
    type V = CommandModel;

    open spec fn view(&self) -> CommandModel {
        match self {
            Command::Open(e) => CommandModel::Open(*e),
            Command::Write(b) => CommandModel::Write(b@),
            Command::Read => CommandModel::Read,
            Command::Close(e) => CommandModel::Close(e@),
            Command::Finish(Ok(())) => CommandModel::Finish(Ok(())),
            Command::Finish(Err(e)) => CommandModel::Finish(Err(e@)),
            Command::Deliver(p) => CommandModel::Deliver(p@),
        }
    }
}

/// The CONNECT a driver with this configuration sends.
pub open spec fn connect_packet(c: ConfigModel) -> PacketModel {
    PacketModel::Connect(
        ConnectModel {
            keep_alive: c.keep_alive,
            client_id: c.client_id,
            clean_session: true,
            username: c.username,
            password: c.password,
        },
    )
}

/// The packet can be sent from a buffer of this capacity.
pub open spec fn sendable(p: PacketModel, capacity: nat) -> bool {
    fields_fit(p) && encodable(p, capacity)
}

/// A session is up and the transport agrees.
pub open spec fn ready(phase: Phase, transport_connected: bool) -> bool {
    phase == Phase::Connected && transport_connected
}

/// The maintenance call: a no-op while the transport reports connected, else the
/// start of a handshake.
pub open spec fn maintain_step(c: ConfigModel, phase: Phase, transport_connected: bool) -> (
    Phase,
    CommandModel,
) {
    if transport_connected {
        (Phase::Connected, CommandModel::Finish(Ok(())))
    } else {
        (Phase::Opening, CommandModel::Open(c.broker))
    }
}

/// Publishing a message: a message that does not encode fails as such; one that
/// does is written only while a session is up.
pub open spec fn publish_step(
    c: ConfigModel,
    phase: Phase,
    m: PublishModel,
    transport_connected: bool,
) -> (Phase, CommandModel) {
    let p = PacketModel::Publish(m);
    let up = ready(phase, transport_connected);
    if !sendable(p, c.buffer_capacity) {
        (
            if up {
                Phase::Connected
            } else {
                Phase::Disconnected
            },
            CommandModel::Finish(Err(ErrorKind::Encoding)),
        )
    } else if !up {
        (Phase::Disconnected, CommandModel::Finish(Err(ErrorKind::NotConnected)))
    } else {
        (Phase::Publishing, CommandModel::Write(wire_bytes(p)))
    }
}

/// Reading the next inbound packet: only while a session is up.
pub open spec fn read_step(phase: Phase, transport_connected: bool) -> (Phase, CommandModel) {
    if !ready(phase, transport_connected) {
        (Phase::Disconnected, CommandModel::Finish(Err(ErrorKind::NotConnected)))
    } else {
        (Phase::Reading, CommandModel::Read)
    }
}

/// How the broker's answer to CONNECT ends the handshake.
pub open spec fn handshake_answer(b: Seq<u8>) -> (Phase, CommandModel) {
    if b.len() == 0 {
        (Phase::Disconnected, CommandModel::Close(ErrorKind::EOF))
    } else {
        match decoded(b) {
            Decoded::Packet(PacketModel::Connack(a)) => {
                if a.code == mqttrs::ConnectReturnCode::Accepted {
                    (Phase::Connected, CommandModel::Finish(Ok(())))
                } else {
                    (Phase::Disconnected, CommandModel::Close(ErrorKind::ConnectionRefused(a.code)))
                }
            },
            Decoded::Packet(_) | Decoded::Unexpected(_) => (
                Phase::Disconnected,
                CommandModel::Close(ErrorKind::WrongMessageReceived),
            ),
            Decoded::Incomplete => (Phase::Disconnected, CommandModel::Close(ErrorKind::NoPacket)),
            _ => (Phase::Disconnected, CommandModel::Close(ErrorKind::Decoding)),
        }
    }
}

/// What an application read gives; the session stays as it was.
pub open spec fn read_answer(b: Seq<u8>) -> (Phase, CommandModel) {
    if b.len() == 0 {
        (Phase::Connected, CommandModel::Finish(Err(ErrorKind::EOF)))
    } else {
        match decoded(b) {
            Decoded::Packet(p) => (Phase::Connected, CommandModel::Deliver(p)),
            Decoded::Unexpected(_) => (
                Phase::Connected,
                CommandModel::Finish(Err(ErrorKind::WrongMessageReceived)),
            ),
            Decoded::Incomplete => (Phase::Connected, CommandModel::Finish(Err(ErrorKind::NoPacket))),
            _ => (Phase::Connected, CommandModel::Finish(Err(ErrorKind::Decoding))),
        }
    }
}

/// The outcomes the driver waits for in each phase.
pub open spec fn expects(phase: Phase, o: OutcomeModel) -> bool {
    match o {
        OutcomeModel::Opened | OutcomeModel::OpenFailed => phase == Phase::Opening,
        OutcomeModel::Written | OutcomeModel::WriteFailed => phase == Phase::SendingConnect || phase
            == Phase::Publishing,
        OutcomeModel::Received(_) | OutcomeModel::ReadFailed => phase == Phase::AwaitingConnack
            || phase == Phase::Reading,
    }
}

/// What the driver does with a transport outcome it expects.
pub open spec fn outcome_step(c: ConfigModel, phase: Phase, o: OutcomeModel) -> (Phase, CommandModel) {
    match o {
        OutcomeModel::Opened => {
            let p = connect_packet(c);
            if sendable(p, c.buffer_capacity) {
                (Phase::SendingConnect, CommandModel::Write(wire_bytes(p)))
            } else {
                (Phase::Disconnected, CommandModel::Close(ErrorKind::Encoding))
            }
        },
        OutcomeModel::OpenFailed => (Phase::Disconnected, CommandModel::Finish(Err(ErrorKind::ConnectError))),
        OutcomeModel::Written => {
            if phase == Phase::SendingConnect {
                (Phase::AwaitingConnack, CommandModel::Read)
            } else {
                (Phase::Connected, CommandModel::Finish(Ok(())))
            }
        },
        OutcomeModel::WriteFailed => (Phase::Disconnected, CommandModel::Close(ErrorKind::TcpError)),
        OutcomeModel::Received(b) => {
            if phase == Phase::AwaitingConnack {
                handshake_answer(b)
            } else {
                read_answer(b)
            }
        },
        OutcomeModel::ReadFailed => {
            if phase == Phase::AwaitingConnack {
                (Phase::Disconnected, CommandModel::Close(ErrorKind::TcpError))
            } else {
                (Phase::Connected, CommandModel::Finish(Err(ErrorKind::TcpError)))
            }
        },
    }
}

} // verus!

verus! {

pub struct DriverModel {
    pub config: ConfigModel,
    pub phase: Phase,
}

/// The session driver. It owns no transport: it tells its caller what to do with one.
pub struct MqttDriver {
    config: Config,
    phase: Phase,
}

/// Encodes `packet` into a fresh buffer of `capacity` bytes and keeps the frame.
fn frame_of(packet: &Packet, capacity: usize) -> (r: Result<Vec<u8>, EncodeError>)
    ensures
        r is Ok <==> sendable(packet@, capacity as nat),
        r matches Ok(b) ==> b@ == wire_bytes(packet@),
{
    let mut buf: Vec<u8> = vec![0u8; capacity];
    match encode(packet, buf.as_mut_slice()) {
        Ok(n) => {
            buf.truncate(n);
            Ok(buf)
        },
        Err(e) => Err(e),
    }
}

fn copy_bytes(v: &Vec<u8>) -> (r: Vec<u8>)
    ensures
        r@ == v@,
{
    let mut r: Vec<u8> = Vec::new();
    let mut i: usize = 0;
    while i < v.len()
        invariant
            i <= v.len(),
            r@ == v@.subrange(0, i as int),
        decreases v.len() - i,
    {
        r.push(v[i]);
        i = i + 1;
    }
    assert(r@ =~= v@);
    r
}

impl View for MqttDriver {
    type V = DriverModel;

    closed spec fn view(&self) -> DriverModel {
        DriverModel { config: self.config@, phase: self.phase }
    }
}

impl MqttDriver {
    /// A driver for `broker` with the default client identifier, keep-alive and
    /// buffer size, and no session yet.
    pub fn new(broker: Endpoint, username: Option<String>, password: Option<Vec<u8>>) -> (d: Self)
        ensures
            d@.phase == Phase::Disconnected,
            d@.config == (ConfigModel {
                broker,
                client_id: DEFAULT_CLIENT_ID@,
                keep_alive: DEFAULT_KEEP_ALIVE,
                username: match username {
                    Some(u) => Some(u@),
                    None => None,
                },
                password: match password {
                    Some(p) => Some(p@),
                    None => None,
                },
                buffer_capacity: DEFAULT_BUFFER_CAPACITY as nat,
            }),
    {
        let config = Config {
            broker,
            client_id: DEFAULT_CLIENT_ID.to_owned(),
            keep_alive: DEFAULT_KEEP_ALIVE,
            username,
            password,
            buffer_capacity: DEFAULT_BUFFER_CAPACITY,
        };
        MqttDriver { config, phase: Phase::Disconnected }
    }

    /// A driver built from `config`, with no session yet.
    pub fn with_config(config: Config) -> (d: Self)
        ensures
            d@.phase == Phase::Disconnected,
            d@.config == config@,
    {
        MqttDriver { config, phase: Phase::Disconnected }
    }

    pub fn phase(&self) -> (r: Phase)
        ensures
            r == self@.phase,
    {
        self.phase
    }

    /// The CONNECT this driver sends on every (re)connect.
    pub fn connect_packet(&self) -> (p: Packet)
        ensures
            p@ == connect_packet(self@.config),
    {
        let c = &self.config;
        let username = match &c.username {
            Some(u) => Some(u.clone()),
            None => None,
        };
        let password = match &c.password {
            Some(w) => Some(copy_bytes(w)),
            None => None,
        };
        Packet::Connect(
            Connect {
                keep_alive: c.keep_alive,
                client_id: c.client_id.clone(),
                clean_session: true,
                username,
                password,
            },
        )
    }

    /// Makes sure a session is up: a no-op while the transport reports connected,
    /// else the start of a new handshake (at most one per call). A failed
    /// handshake ends with `Close`, so the caller drops the transport and the next
    /// call starts over.
    pub fn manage_connection(&mut self, transport_connected: bool) -> (cmd: Command)
        ensures
            (final(self)@.phase, cmd@) == maintain_step(
                old(self)@.config,
                old(self)@.phase,
                transport_connected,
            ),
            final(self)@.config == old(self)@.config,
    {
        if transport_connected {
            self.phase = Phase::Connected;
            Command::Finish(Ok(()))
        } else {
            self.phase = Phase::Opening;
            Command::Open(self.config.broker)
        }
    }

    /// Publishes `message` "at most once"; no acknowledgement is awaited.
    pub fn publish(&mut self, message: &Publish, transport_connected: bool) -> (cmd: Command)
        ensures
            (final(self)@.phase, cmd@) == publish_step(
                old(self)@.config,
                old(self)@.phase,
                message@,
                transport_connected,
            ),
            final(self)@.config == old(self)@.config,
    {
        let up = self.phase == Phase::Connected && transport_connected;
        let packet = Packet::Publish(
            Publish {
                dup: message.dup,
                retain: message.retain,
                topic_name: message.topic_name.clone(),
                payload: copy_bytes(&message.payload),
            },
        );
        let framed = frame_of(&packet, self.config.buffer_capacity);
        if !up {
            self.phase = Phase::Disconnected;
        }
        match framed {
            Ok(bytes) => {
                if !up {
                    return Command::Finish(Err(MqttError::NotConnected));
                }
                self.phase = Phase::Publishing;
                Command::Write(bytes)
            },
            Err(e) => Command::Finish(Err(MqttError::EncodingError(e))),
        }
    }

    /// Reads the next inbound packet.
    pub fn read(&mut self, transport_connected: bool) -> (cmd: Command)
        ensures
            (final(self)@.phase, cmd@) == read_step(old(self)@.phase, transport_connected),
            final(self)@.config == old(self)@.config,
    {
        if !(self.phase == Phase::Connected && transport_connected) {
            self.phase = Phase::Disconnected;
            return Command::Finish(Err(MqttError::NotConnected));
        }
        self.phase = Phase::Reading;
        Command::Read
    }

    /// Whether the driver is waiting for this outcome.
    pub fn expects(&self, outcome: &Outcome) -> (r: bool)
        ensures
            r == expects(self@.phase, outcome@),
    {
        match outcome {
            Outcome::Opened | Outcome::OpenFailed => self.phase == Phase::Opening,
            Outcome::Written | Outcome::WriteFailed => self.phase == Phase::SendingConnect
                || self.phase == Phase::Publishing,
            Outcome::Received(_) | Outcome::ReadFailed => self.phase == Phase::AwaitingConnack
                || self.phase == Phase::Reading,
        }
    }

    /// Takes what the transport did with the last command and says what comes next.
    pub fn on_outcome(&mut self, outcome: Outcome) -> (cmd: Command)
        requires
            expects(old(self)@.phase, outcome@),
        ensures
            (final(self)@.phase, cmd@) == outcome_step(old(self)@.config, old(self)@.phase, outcome@),
            final(self)@.config == old(self)@.config,
    {
        match outcome {
            Outcome::Opened => {
                let packet = self.connect_packet();
                match frame_of(&packet, self.config.buffer_capacity) {
                    Ok(bytes) => {
                        self.phase = Phase::SendingConnect;
                        Command::Write(bytes)
                    },
                    Err(e) => {
                        self.phase = Phase::Disconnected;
                        Command::Close(MqttError::EncodingError(e))
                    },
                }
            },
            Outcome::OpenFailed => {
                self.phase = Phase::Disconnected;
                Command::Finish(Err(MqttError::ConnectError))
            },
            Outcome::Written => {
                if self.phase == Phase::SendingConnect {
                    self.phase = Phase::AwaitingConnack;
                    Command::Read
                } else {
                    self.phase = Phase::Connected;
                    Command::Finish(Ok(()))
                }
            },
            Outcome::WriteFailed => {
                self.phase = Phase::Disconnected;
                Command::Close(MqttError::TcpError)
            },
            Outcome::Received(bytes) => {
                if self.phase == Phase::AwaitingConnack {
                    self.phase = Phase::Disconnected;
                    if bytes.len() == 0 {
                        return Command::Close(MqttError::EOF);
                    }
                    match decode(bytes.as_slice()) {
                        Ok(Some(Packet::Connack(a))) => match a.code {
                            mqttrs::ConnectReturnCode::Accepted => {
                                self.phase = Phase::Connected;
                                Command::Finish(Ok(()))
                            },
                            code => Command::Close(MqttError::ConnectionRefused(code)),
                        },
                        Ok(Some(_)) => Command::Close(MqttError::WrongMessageReceived),
                        Err(DecodeError::Unexpected(_)) => Command::Close(
                            MqttError::WrongMessageReceived,
                        ),
                        Ok(None) => Command::Close(MqttError::NoPacket),
                        Err(e) => Command::Close(MqttError::DecodingError(e)),
                    }
                } else {
                    self.phase = Phase::Connected;
                    if bytes.len() == 0 {
                        return Command::Finish(Err(MqttError::EOF));
                    }
                    match decode(bytes.as_slice()) {
                        Ok(Some(p)) => Command::Deliver(p),
                        Err(DecodeError::Unexpected(_)) => Command::Finish(
                            Err(MqttError::WrongMessageReceived),
                        ),
                        Ok(None) => Command::Finish(Err(MqttError::NoPacket)),
                        Err(e) => Command::Finish(Err(MqttError::DecodingError(e))),
                    }
                }
            },
            Outcome::ReadFailed => {
                if self.phase == Phase::AwaitingConnack {
                    self.phase = Phase::Disconnected;
                    Command::Close(MqttError::TcpError)
                } else {
                    self.phase = Phase::Connected;
                    Command::Finish(Err(MqttError::TcpError))
                }
            },
        }
    }
}

} // verus!

verus! {

/// Maintenance is idempotent: while the transport reports connected, a
/// maintenance call ends at once with success, writes nothing and leaves the
/// session up, so a second call does exactly the same; and any step that ends a
/// handshake with success leaves the session up.
pub proof fn lemma_maintain_idempotent(c: ConfigModel, phase: Phase, o: OutcomeModel)
    ensures
        maintain_step(c, phase, true) == (Phase::Connected, CommandModel::Finish(Ok(()))),
        maintain_step(c, maintain_step(c, phase, true).0, true) == maintain_step(c, phase, true),
        expects(phase, o) && outcome_step(c, phase, o).1 == CommandModel::Finish(Ok(())) ==> outcome_step(
            c,
            phase,
            o,
        ).0 == Phase::Connected,
{
}

/// The transport read a CONNACK that accepts the session.
pub open spec fn accepts_session(o: OutcomeModel) -> bool {
    match o {
        OutcomeModel::Received(b) => match decoded(b) {
            Decoded::Packet(PacketModel::Connack(a)) => a.code == mqttrs::ConnectReturnCode::Accepted,
            _ => false,
        },
        _ => false,
    }
}

/// The handshake comes first: the bytes written once the transport opens are this
/// driver's CONNECT; a PUBLISH is written only while a session is up; and a
/// session comes up only from an accepted CONNACK read after that CONNECT was
/// written, or from a maintenance call while the transport reports connected.
pub proof fn lemma_connect_first(
    c: ConfigModel,
    phase: Phase,
    o: OutcomeModel,
    m: PublishModel,
    tc: bool,
)
    ensures
        maintain_step(c, phase, tc).1 is Open ==> maintain_step(c, phase, tc).0 == Phase::Opening,
        expects(phase, o) && phase == Phase::Opening && outcome_step(c, phase, o).1 is Write
            ==> o is Opened && outcome_step(c, phase, o) == (
            Phase::SendingConnect,
            CommandModel::Write(wire_bytes(connect_packet(c))),
        ),
        expects(phase, o) && phase == Phase::SendingConnect ==> outcome_step(c, phase, o).0
            != Phase::Connected,
        publish_step(c, phase, m, tc).1 is Write ==> phase == Phase::Connected && tc,
        maintain_step(c, phase, tc).0 == Phase::Connected <==> tc,
        expects(phase, o) && outcome_step(c, phase, o).0 == Phase::Connected ==> phase
            == Phase::Publishing || phase == Phase::Reading || (phase == Phase::AwaitingConnack
            && accepts_session(o)),
{
}

/// A refused CONNECT fails the handshake with the broker's code, closes the
/// transport, and leaves no session: publishing and reading are refused after it.
pub proof fn lemma_refused_session(c: ConfigModel, b: Seq<u8>, m: PublishModel, tc: bool)
    requires
        decoded(b) matches Decoded::Packet(PacketModel::Connack(a)) && a.code
            != mqttrs::ConnectReturnCode::Accepted,
    ensures
        decoded(b) matches Decoded::Packet(PacketModel::Connack(a)) && outcome_step(
            c,
            Phase::AwaitingConnack,
            OutcomeModel::Received(b),
        ) == (Phase::Disconnected, CommandModel::Close(ErrorKind::ConnectionRefused(a.code))),
        !(publish_step(c, Phase::Disconnected, m, tc).1 is Write),
        sendable(PacketModel::Publish(m), c.buffer_capacity) ==> publish_step(
            c,
            Phase::Disconnected,
            m,
            tc,
        ) == (Phase::Disconnected, CommandModel::Finish(Err(ErrorKind::NotConnected))),
        read_step(Phase::Disconnected, tc) == (
            Phase::Disconnected,
            CommandModel::Finish(Err(ErrorKind::NotConnected)),
        ),
{
    assert(b.len() > 0) by {
        if b.len() == 0 {
            assert(frame_header(b) == FrameHeader::Incomplete);
        }
    }
}

/// A read that yields no bytes is end of stream: an error, never a packet.
pub proof fn lemma_end_of_stream(c: ConfigModel, phase: Phase)
    requires
        phase == Phase::AwaitingConnack || phase == Phase::Reading,
    ensures
        outcome_step(c, phase, OutcomeModel::Received(Seq::empty())).1 == (if phase
            == Phase::AwaitingConnack {
            CommandModel::Close(ErrorKind::EOF)
        } else {
            CommandModel::Finish(Err(ErrorKind::EOF))
        }),
{
}

/// A PUBLISH whose frame exceeds the buffer fails with an encoding error, with
/// or without a session, and nothing is written or closed.
pub proof fn lemma_oversized_publish(c: ConfigModel, phase: Phase, m: PublishModel, tc: bool)
    requires
        !encodable(PacketModel::Publish(m), c.buffer_capacity),
    ensures
        publish_step(c, phase, m, tc).1 == CommandModel::Finish(Err(ErrorKind::Encoding)),
        ready(phase, tc) ==> publish_step(c, phase, m, tc).0 == Phase::Connected,
{
}

/// After a write fails on an established session, the next maintenance call
/// re-runs the whole handshake, and an accepted CONNACK brings the session back.
pub proof fn lemma_reconnect_after_drop(c: ConfigModel, tc: bool, answer: Seq<u8>)
    requires
        sendable(connect_packet(c), c.buffer_capacity),
        decoded(answer) matches Decoded::Packet(PacketModel::Connack(a)) && a.code
            == mqttrs::ConnectReturnCode::Accepted,
    ensures
        outcome_step(c, Phase::Publishing, OutcomeModel::WriteFailed) == (
            Phase::Disconnected,
            CommandModel::Close(ErrorKind::TcpError),
        ),
        maintain_step(c, Phase::Disconnected, false) == (
            Phase::Opening,
            CommandModel::Open(c.broker),
        ),
        outcome_step(c, Phase::Opening, OutcomeModel::Opened) == (
            Phase::SendingConnect,
            CommandModel::Write(wire_bytes(connect_packet(c))),
        ),
        outcome_step(c, Phase::SendingConnect, OutcomeModel::Written) == (
            Phase::AwaitingConnack,
            CommandModel::Read,
        ),
        outcome_step(c, Phase::AwaitingConnack, OutcomeModel::Received(answer)) == (
            Phase::Connected,
            CommandModel::Finish(Ok(())),
        ),
{
    assert(answer.len() > 0) by {
        if answer.len() == 0 {
            assert(frame_header(answer) == FrameHeader::Incomplete);
        }
    }
}

} // verus!
