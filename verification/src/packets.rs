//! The packet model of the protocol and its codec.

pub mod client;
pub mod color;
pub mod context;
pub mod server;
pub mod types;

use client::{ClientPacket, ClientPacketView};
use server::{ServerPacket, ServerPacketView};
use std::str::FromStr;
use types::{view_of, ParsePacketError, Sockchatable};
use vstd::prelude::*;

verus! {

/// A packet of either direction.
#[derive(Debug, Clone, PartialEq, Eq)]
pub enum Packet {
    Client(ClientPacket),
    Server(ServerPacket),
}

/// The model of a `Packet`.
pub enum PacketView {
    Client(ClientPacketView),
    Server(ServerPacketView),
}

impl View for Packet {
    type V = PacketView;

    open spec fn view(&self) -> PacketView {
        match self {
            Packet::Client(packet) => PacketView::Client(packet@),
            Packet::Server(packet) => PacketView::Server(packet@),
        }
    }
}

impl PacketView {
    /// The line of the packet.
    pub open spec fn line(self) -> Seq<char> {
        match self {
            PacketView::Client(packet) => packet.line(),
            PacketView::Server(packet) => packet.line(),
        }
    }
}

impl Sockchatable for Packet {
    open spec fn encodable(&self) -> bool {
        match self {
            Packet::Client(packet) => packet.encodable(),
            Packet::Server(packet) => packet.encodable(),
        }
    }

    open spec fn wire(&self) -> Seq<char> {
        self@.line()
    }

    fn to_sockstr(&self) -> (s: String) {
        match self {
            Self::Client(packet) => packet.to_sockstr(),
            Self::Server(packet) => packet.to_sockstr(),
        }
    }
}

impl Packet {
    /// Whether the packet can be encoded.
    pub fn is_encodable(&self) -> (b: bool)
        ensures
            b == self.encodable(),
    {
        match self {
            Packet::Client(_) => true,
            Packet::Server(packet) => packet.is_encodable(),
        }
    }
}

/// Decodes a line that a client sent.
pub fn decode_client(line: &str) -> (r: Result<ClientPacket, ParsePacketError>)
    ensures
        view_of(r) == ClientPacketView::of_line(line@),
{
    ClientPacket::from_str(line)
}

/// Decodes a line that a server sent.
pub fn decode_server(line: &str) -> (r: Result<ServerPacket, ParsePacketError>)
    ensures
        view_of(r) == ServerPacketView::of_line(line@),
{
    ServerPacket::from_str(line)
}

/// Encodes a packet as a line.
pub fn encode(packet: &Packet) -> (line: String)
    requires
        packet.encodable(),
    ensures
        line@ == packet@.line(),
{
    packet.to_sockstr()
}

} // verus!
