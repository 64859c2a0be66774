use mqtt_driver::codec::{DecodeError, EncodeError};
use mqtt_driver::packet::{Connack, Packet, Publish};
use mqtt_driver::session::{Command, Config, Endpoint, MqttDriver, MqttError, Outcome, Phase};
use mqttrs::ConnectReturnCode;

const BROKER: Endpoint = Endpoint { addr: [192, 168, 1, 199], port: 1883 };

fn driver() -> MqttDriver {
    MqttDriver::new(BROKER, Some("plant".to_string()), Some(b"plant".to_vec()))
}

fn message(topic: &str, payload: &[u8], retain: bool) -> Publish {
    Publish { dup: false, retain, topic_name: topic.to_string(), payload: payload.to_vec() }
}

fn connect_bytes() -> Vec<u8> {
    let mut v = vec![0x10, 35, 0, 4, b'M', b'Q', b'T', b'T', 4, 0xC2, 0, 30, 0, 9];
    v.extend_from_slice(b"plants_wc");
    v.extend_from_slice(&[0, 5]);
    v.extend_from_slice(b"plant");
    v.extend_from_slice(&[0, 5]);
    v.extend_from_slice(b"plant");
    v
}

fn written(cmd: Command) -> Vec<u8> {
    match cmd {
        Command::Write(b) => b,
        other => panic!("expected a write, got {:?}", other),
    }
}

/// Runs a handshake that the broker accepts, recording what was written.
fn handshake(d: &mut MqttDriver, wire: &mut Vec<u8>) {
    assert_eq!(d.manage_connection(false), Command::Open(BROKER));
    wire.extend(written(d.on_outcome(Outcome::Opened)));
    assert_eq!(d.on_outcome(Outcome::Written), Command::Read);
    assert_eq!(d.on_outcome(Outcome::Received(vec![0x20, 2, 0, 0])), Command::Finish(Ok(())));
    assert_eq!(d.phase(), Phase::Connected);
}

#[test]
fn happy_path_wire_bytes() {
    let mut d = driver();
    let mut wire = Vec::new();
    handshake(&mut d, &mut wire);
    wire.extend(written(d.publish(&message("topic/x", b"42.0", false), true)));
    assert_eq!(d.on_outcome(Outcome::Written), Command::Finish(Ok(())));
    let mut expected = connect_bytes();
    expected.extend_from_slice(&[0x30, 13, 0, 7]);
    expected.extend_from_slice(b"topic/x");
    expected.extend_from_slice(b"42.0");
    assert_eq!(wire, expected);
}

#[test]
fn maintenance_twice_while_connected() {
    let mut d = driver();
    let mut wire = Vec::new();
    handshake(&mut d, &mut wire);
    assert_eq!(d.manage_connection(true), Command::Finish(Ok(())));
    assert_eq!(d.manage_connection(true), Command::Finish(Ok(())));
    assert_eq!(wire, connect_bytes());
}

#[test]
fn first_write_is_connect() {
    let mut d = driver();
    assert_eq!(d.publish(&message("t", b"1", false), true), Command::Finish(Err(MqttError::NotConnected)));
    assert_eq!(d.manage_connection(false), Command::Open(BROKER));
    assert_eq!(written(d.on_outcome(Outcome::Opened)), connect_bytes());
}

#[test]
fn not_authorized_is_refused() {
    let mut d = driver();
    d.manage_connection(false);
    d.on_outcome(Outcome::Opened);
    d.on_outcome(Outcome::Written);
    assert_eq!(
        d.on_outcome(Outcome::Received(vec![0x20, 2, 0, 5])),
        Command::Close(MqttError::ConnectionRefused(ConnectReturnCode::NotAuthorized))
    );
    assert_eq!(d.phase(), Phase::Disconnected);
    assert_eq!(d.publish(&message("t", b"1", false), true), Command::Finish(Err(MqttError::NotConnected)));
    assert_eq!(d.read(true), Command::Finish(Err(MqttError::NotConnected)));
    // The caller has dropped the transport on `Close`.
    assert_eq!(d.manage_connection(false), Command::Open(BROKER));
}

#[test]
fn maintenance_with_connected_transport_is_no_op() {
    let mut d = driver();
    assert_eq!(d.manage_connection(true), Command::Finish(Ok(())));
    assert_eq!(d.phase(), Phase::Connected);
    assert_eq!(d.manage_connection(true), Command::Finish(Ok(())));
    assert_eq!(d.phase(), Phase::Connected);
}

#[test]
fn read_delivers_connect() {
    let mut d = driver();
    handshake(&mut d, &mut Vec::new());
    d.read(true);
    match d.on_outcome(Outcome::Received(connect_bytes())) {
        Command::Deliver(Packet::Connect(c)) => {
            assert_eq!(c.client_id, "plants_wc");
            assert_eq!(c.keep_alive, 30);
            assert!(c.clean_session);
            assert_eq!(c.username, Some("plant".to_string()));
            assert_eq!(c.password, Some(b"plant".to_vec()));
        }
        other => panic!("expected a CONNECT, got {:?}", other),
    }
}

#[test]
fn end_of_stream_during_handshake() {
    let mut d = driver();
    d.manage_connection(false);
    d.on_outcome(Outcome::Opened);
    d.on_outcome(Outcome::Written);
    assert_eq!(d.on_outcome(Outcome::Received(vec![])), Command::Close(MqttError::EOF));
    assert_eq!(d.phase(), Phase::Disconnected);
}

#[test]
fn end_of_stream_on_read() {
    let mut d = driver();
    handshake(&mut d, &mut Vec::new());
    assert_eq!(d.read(true), Command::Read);
    assert_eq!(d.on_outcome(Outcome::Received(vec![])), Command::Finish(Err(MqttError::EOF)));
    assert_eq!(d.phase(), Phase::Connected);
}

#[test]
fn oversized_publish_writes_nothing() {
    let mut d = driver();
    handshake(&mut d, &mut Vec::new());
    let big = vec![0u8; 5000];
    assert_eq!(
        d.publish(&message("t", &big, false), true),
        Command::Finish(Err(MqttError::EncodingError(EncodeError::BufferTooSmall)))
    );
    assert_eq!(d.phase(), Phase::Connected);
}

#[test]
fn reconnect_after_write_failure() {
    let mut d = driver();
    let mut wire = Vec::new();
    handshake(&mut d, &mut wire);
    written(d.publish(&message("t", b"1", false), true));
    assert_eq!(d.on_outcome(Outcome::WriteFailed), Command::Close(MqttError::TcpError));
    let mut again = Vec::new();
    handshake(&mut d, &mut again);
    assert_eq!(again, connect_bytes());
}

#[test]
fn reconnect_when_transport_drops() {
    let mut d = driver();
    handshake(&mut d, &mut Vec::new());
    assert_eq!(d.manage_connection(false), Command::Open(BROKER));
    assert_eq!(d.phase(), Phase::Opening);
}

#[test]
fn connect_failure() {
    let mut d = driver();
    d.manage_connection(false);
    assert_eq!(d.on_outcome(Outcome::OpenFailed), Command::Finish(Err(MqttError::ConnectError)));
    assert_eq!(d.phase(), Phase::Disconnected);
}

#[test]
fn connect_write_failure() {
    let mut d = driver();
    d.manage_connection(false);
    d.on_outcome(Outcome::Opened);
    assert_eq!(d.on_outcome(Outcome::WriteFailed), Command::Close(MqttError::TcpError));
}

#[test]
fn handshake_read_failure() {
    let mut d = driver();
    d.manage_connection(false);
    d.on_outcome(Outcome::Opened);
    d.on_outcome(Outcome::Written);
    assert_eq!(d.on_outcome(Outcome::ReadFailed), Command::Close(MqttError::TcpError));
}

#[test]
fn handshake_wrong_message() {
    let mut d = driver();
    d.manage_connection(false);
    d.on_outcome(Outcome::Opened);
    d.on_outcome(Outcome::Written);
    assert_eq!(
        d.on_outcome(Outcome::Received(vec![0x30, 4, 0, 1, b't', b'v'])),
        Command::Close(MqttError::WrongMessageReceived)
    );
}

#[test]
fn handshake_incomplete_answer() {
    let mut d = driver();
    d.manage_connection(false);
    d.on_outcome(Outcome::Opened);
    d.on_outcome(Outcome::Written);
    assert_eq!(d.on_outcome(Outcome::Received(vec![0x20])), Command::Close(MqttError::NoPacket));
}

#[test]
fn handshake_pingresp_is_wrong_message() {
    let mut d = driver();
    d.manage_connection(false);
    d.on_outcome(Outcome::Opened);
    d.on_outcome(Outcome::Written);
    assert_eq!(
        d.on_outcome(Outcome::Received(vec![0xD0, 0])),
        Command::Close(MqttError::WrongMessageReceived)
    );
    assert_eq!(d.phase(), Phase::Disconnected);
}

#[test]
fn handshake_undecodable_answer() {
    let mut d = driver();
    d.manage_connection(false);
    d.on_outcome(Outcome::Opened);
    d.on_outcome(Outcome::Written);
    assert_eq!(
        d.on_outcome(Outcome::Received(vec![0x00, 0])),
        Command::Close(MqttError::DecodingError(DecodeError::Malformed))
    );
}

#[test]
fn read_unexpected_packet() {
    let mut d = driver();
    handshake(&mut d, &mut Vec::new());
    d.read(true);
    assert_eq!(
        d.on_outcome(Outcome::Received(vec![0xD0, 0])),
        Command::Finish(Err(MqttError::WrongMessageReceived))
    );
    assert_eq!(d.phase(), Phase::Connected);
}

#[test]
fn oversized_publish_without_session() {
    let mut d = driver();
    let big = vec![0u8; 5000];
    assert_eq!(
        d.publish(&message("t", &big, false), true),
        Command::Finish(Err(MqttError::EncodingError(EncodeError::BufferTooSmall)))
    );
    assert_eq!(d.phase(), Phase::Disconnected);
}

#[test]
fn read_delivers_packet() {
    let mut d = driver();
    handshake(&mut d, &mut Vec::new());
    assert_eq!(d.read(true), Command::Read);
    assert_eq!(
        d.on_outcome(Outcome::Received(vec![0x31, 4, 0, 1, b't', b'v'])),
        Command::Deliver(Packet::Publish(Publish {
            dup: false,
            retain: true,
            topic_name: "t".to_string(),
            payload: b"v".to_vec(),
        }))
    );
    assert_eq!(d.read(true), Command::Read);
    assert_eq!(d.on_outcome(Outcome::ReadFailed), Command::Finish(Err(MqttError::TcpError)));
    assert_eq!(d.phase(), Phase::Connected);
}

#[test]
fn read_connack_delivered() {
    let mut d = driver();
    handshake(&mut d, &mut Vec::new());
    d.read(true);
    let a = Connack { session_present: true, code: ConnectReturnCode::Accepted };
    assert_eq!(d.on_outcome(Outcome::Received(vec![0x20, 2, 1, 0])), Command::Deliver(Packet::Connack(a)));
}

#[test]
fn outcomes_expected_by_phase() {
    let mut d = driver();
    assert!(!d.expects(&Outcome::Opened));
    d.manage_connection(false);
    assert!(d.expects(&Outcome::Opened));
    assert!(!d.expects(&Outcome::Written));
    d.on_outcome(Outcome::Opened);
    assert!(d.expects(&Outcome::WriteFailed));
    assert!(!d.expects(&Outcome::ReadFailed));
}

#[test]
fn custom_config_used_in_connect() {
    let config = Config {
        broker: BROKER,
        client_id: "c".to_string(),
        keep_alive: 60,
        username: None,
        password: None,
        buffer_capacity: 16,
    };
    let mut d = MqttDriver::with_config(config);
    d.manage_connection(false);
    assert_eq!(
        written(d.on_outcome(Outcome::Opened)),
        vec![0x10, 13, 0, 4, b'M', b'Q', b'T', b'T', 4, 2, 0, 60, 0, 1, b'c']
    );
}

#[test]
fn small_buffer_fails_connect() {
    let config = Config {
        broker: BROKER,
        client_id: "c".to_string(),
        keep_alive: 60,
        username: None,
        password: None,
        buffer_capacity: 8,
    };
    let mut d = MqttDriver::with_config(config);
    d.manage_connection(false);
    assert!(matches!(
        d.on_outcome(Outcome::Opened),
        Command::Close(MqttError::EncodingError(EncodeError::BufferTooSmall))
    ));
}
