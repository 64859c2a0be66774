//! A small MQTT 3.1.1 client: a wire codec for the packets a publishing client
//! exchanges with its broker, and a session driver that keeps one session alive
//! over a reconnectable byte-stream transport.
pub mod packet;
pub mod wire;
pub mod codec;
pub mod session;
