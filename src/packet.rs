//! The packets this client sends and receives, and their mathematical models.
use vstd::prelude::*;

verus! {

/// The broker's answer to a CONNECT, as defined by the outside codec.
#[verifier::external_type_specification]
pub struct ExConnectReturnCode(mqttrs::ConnectReturnCode);

/// An error reported by the outside codec.
#[verifier::external_type_specification]
#[verifier::external_body]
pub struct ExMqttrsError(mqttrs::Error);

/// The byte that carries a return code on the wire.
pub open spec fn code_byte(c: mqttrs::ConnectReturnCode) -> u8 {
    match c {
        mqttrs::ConnectReturnCode::Accepted => 0,
        mqttrs::ConnectReturnCode::RefusedProtocolVersion => 1,
        mqttrs::ConnectReturnCode::RefusedIdentifierRejected => 2,
        mqttrs::ConnectReturnCode::ServerUnavailable => 3,
        mqttrs::ConnectReturnCode::BadUsernamePassword => 4,
        mqttrs::ConnectReturnCode::NotAuthorized => 5,
    }
}

/// The return code carried by a byte in `0..=5`.
pub open spec fn code_of(b: u8) -> mqttrs::ConnectReturnCode {
    if b == 0 {
        mqttrs::ConnectReturnCode::Accepted
    } else if b == 1 {
        mqttrs::ConnectReturnCode::RefusedProtocolVersion
    } else if b == 2 {
        mqttrs::ConnectReturnCode::RefusedIdentifierRejected
    } else if b == 3 {
        mqttrs::ConnectReturnCode::ServerUnavailable
    } else if b == 4 {
        mqttrs::ConnectReturnCode::BadUsernamePassword
    } else {
        mqttrs::ConnectReturnCode::NotAuthorized
    }
}

/// A CONNECT request: protocol level 3.1.1 and no last will.
#[derive(Debug, PartialEq)]
pub struct Connect {
    pub keep_alive: u16,
    pub client_id: String,
    pub clean_session: bool,
    pub username: Option<String>,
    pub password: Option<Vec<u8>>,
}

/// A CONNACK answer.
#[derive(Clone, Copy, Debug, PartialEq)]
pub struct Connack {
    pub session_present: bool,
    pub code: mqttrs::ConnectReturnCode,
}

/// An application message, sent "at most once" (no packet identifier).
#[derive(Debug, PartialEq)]
pub struct Publish {
    pub dup: bool,
    pub retain: bool,
    pub topic_name: String,
    pub payload: Vec<u8>,
}

/// The packet kinds this client exchanges.
#[derive(Debug, PartialEq)]
pub enum Packet {
    Connect(Connect),
    Connack(Connack),
    Publish(Publish),
}

pub struct ConnectModel {
    pub keep_alive: u16,
    pub client_id: Seq<char>,
    pub clean_session: bool,
    pub username: Option<Seq<char>>,
    pub password: Option<Seq<u8>>,
}

pub struct PublishModel {
    pub dup: bool,
    pub retain: bool,
    pub topic_name: Seq<char>,
    pub payload: Seq<u8>,
}

pub enum PacketModel {
    Connect(ConnectModel),
    Connack(Connack),
    Publish(PublishModel),
}

impl View for Connect {
    type V = ConnectModel;

    open spec fn view(&self) -> ConnectModel {
        ConnectModel {
            keep_alive: self.keep_alive,
            client_id: self.client_id@,
            clean_session: self.clean_session,
            username: match self.username {
                Some(u) => Some(u@),
                None => None,
            },
            password: match self.password {
                Some(p) => Some(p@),
                None => None,
            },
        }
    }
}

impl View for Publish {
    type V = PublishModel;

    open spec fn view(&self) -> PublishModel {
        PublishModel {
            dup: self.dup,
            retain: self.retain,
            topic_name: self.topic_name@,
            payload: self.payload@,
        }
    }
}

impl View for Packet {
    type V = PacketModel;

    open spec fn view(&self) -> PacketModel {
        match self {
            Packet::Connect(c) => PacketModel::Connect(c@),
            Packet::Connack(a) => PacketModel::Connack(*a),
            Packet::Publish(p) => PacketModel::Publish(p@),
        }
    }
}

} // verus!
