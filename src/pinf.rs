//! The PINF layer: its header, the peer name and peer location messages, and the choice
//! between them by message tag.

use crate::citp;
use crate::codec::{
    cstr, le16, le32, no_nul, u32_at, parse_cstring, parse_u16, parse_u32, read_cstring, read_u16_le,
    read_u32_le, size_of_cstring, write_cstring, write_u16_le, write_u32_le, Error,
};
use vstd::prelude::*;

verus! {

/// The port on which peers used to broadcast.
pub const OLD_BROADCAST_PORT: u16 = 4810;

/// The port on which peers multicast.
pub const MULTICAST_PORT: u16 = 4809;

/// The multicast address used before early 2014.
pub const OLD_MULTICAST_ADDR: [u8; 4] = [224, 0, 0, 180];

/// The multicast address in use since early 2014.
pub const MULTICAST_ADDR: [u8; 4] = [239, 224, 0, 180];

/// The layer code "PINF", as the little-endian integer of its four bytes.
pub const PINF: u32 = 0x464e4950;

/// The message code "PNam" of a peer name message.
pub const PNAM: u32 = 0x6d614e50;

/// The message code "PLoc" of a peer location message.
pub const PLOC: u32 = 0x636f4c50;

/// The bytes in front of every PINF payload: the base header and the message code.
pub const PINF_HEADER_SIZE: usize = 24;

/// The header at the start of all PINF packets.
#[derive(Debug, Clone, Copy, PartialEq, Eq, Structural)]
pub struct Header {
    /// The base header; its content type is "PINF".
    pub citp_header: citp::Header,
    /// The code of the PINF message that follows.
    pub content_type: u32,
}

/// Peer name message: the display name of a peer.
#[derive(Debug, Clone, PartialEq, Eq)]
pub struct PNam {
    /// The display name, without its terminating zero byte.
    pub name: Vec<u8>,
}

/// Peer location message: how to reach a peer, what it is, and what it is doing.
#[derive(Debug, Clone, PartialEq, Eq)]
pub struct PLoc {
    /// The TCP port on which the peer listens; 0 when it does not listen.
    pub listening_tcp_port: u16,
    /// The kind of peer, such as "LightingConsole", "MediaServer" or "Visualiser".
    pub kind: Vec<u8>,
    /// The display name of the peer.
    pub name: Vec<u8>,
    /// The display state of the peer, such as "Idle" or "Running".
    pub state: Vec<u8>,
}

/// The body of a PINF packet, one of the known messages.
#[derive(Debug, Clone, PartialEq, Eq)]
pub enum Payload {
    PNam(PNam),
    PLoc(PLoc),
}

/// A whole PINF packet: its header and its message.
#[derive(Debug, Clone, PartialEq, Eq)]
pub struct Message {
    pub pinf_header: Header,
    pub message: Payload,
}

/// What a peer location message holds.
pub struct PLocView {
    pub listening_tcp_port: u16,
    pub kind: Seq<u8>,
    pub name: Seq<u8>,
    pub state: Seq<u8>,
}

/// What the body of a PINF packet holds.
pub enum PayloadView {
    PNam(Seq<u8>),
    PLoc(PLocView),
}

/// What a whole PINF packet holds.
pub struct MessageView {
    pub pinf_header: Header,
    pub message: PayloadView,
}

impl View for PNam {
    type V = Seq<u8>;

    open spec fn view(&self) -> Seq<u8> {
        self.name@
    }
}

impl View for PLoc {
    type V = PLocView;

    open spec fn view(&self) -> PLocView {
        PLocView {
            listening_tcp_port: self.listening_tcp_port,
            kind: self.kind@,
            name: self.name@,
            state: self.state@,
        }
    }
}

impl View for Payload {
    type V = PayloadView;

    open spec fn view(&self) -> PayloadView {
        match self {
            Payload::PNam(p) => PayloadView::PNam(p@),
            Payload::PLoc(p) => PayloadView::PLoc(p@),
        }
    }
}

impl View for Message {
    type V = MessageView;

    open spec fn view(&self) -> MessageView {
        MessageView { pinf_header: self.pinf_header, message: self.message@ }
    }
}

/// The PINF header's bytes on the wire.
pub open spec fn header_bytes(h: Header) -> Seq<u8> {
    h.citp_header.spec_bytes() + le32(h.content_type)
}

/// A peer name message's bytes on the wire.
pub open spec fn pnam_bytes(name: Seq<u8>) -> Seq<u8> {
    cstr(name)
}

/// A peer location message's bytes on the wire.
pub open spec fn ploc_bytes(v: PLocView) -> Seq<u8> {
    le16(v.listening_tcp_port) + cstr(v.kind) + cstr(v.name) + cstr(v.state)
}

/// A payload's bytes on the wire.
pub open spec fn payload_bytes(p: PayloadView) -> Seq<u8> {
    match p {
        PayloadView::PNam(name) => pnam_bytes(name),
        PayloadView::PLoc(v) => ploc_bytes(v),
    }
}

/// A whole packet's bytes on the wire.
pub open spec fn message_bytes(m: MessageView) -> Seq<u8> {
    header_bytes(m.pinf_header) + payload_bytes(m.message)
}

/// The message code that announces a payload.
pub open spec fn payload_tag(p: PayloadView) -> u32 {
    match p {
        PayloadView::PNam(_) => PNAM,
        PayloadView::PLoc(_) => PLOC,
    }
}

/// Every string of the payload can be written: none holds a zero byte.
pub open spec fn payload_wf(p: PayloadView) -> bool {
    match p {
        PayloadView::PNam(name) => no_nul(name),
        PayloadView::PLoc(v) => no_nul(v.kind) && no_nul(v.name) && no_nul(v.state),
    }
}

/// A packet whose header agrees with its payload: the PINF layer, the payload's code, and
/// the exact size of the whole.
pub open spec fn message_wf(m: MessageView) -> bool {
    &&& payload_wf(m.message)
    &&& m.pinf_header.citp_header.content_type == PINF
    &&& m.pinf_header.content_type == payload_tag(m.message)
    &&& m.pinf_header.citp_header.message_size as int == message_bytes(m).len()
}

/// A packet around the payload fits the 32-bit size field.
pub open spec fn fits_u32(p: PayloadView) -> bool {
    PINF_HEADER_SIZE + payload_bytes(p).len() <= u32::MAX
}

/// The packet that the encoder builds around a payload.
pub open spec fn packet_of(p: PayloadView) -> MessageView {
    MessageView {
        pinf_header: Header {
            citp_header: citp::Header::spec_new(
                (PINF_HEADER_SIZE + payload_bytes(p).len()) as u32,
                PINF,
            ),
            content_type: payload_tag(p),
        },
        message: p,
    }
}

/// Reading a PINF header at `pos`: the base header, which must name the PINF layer, then the
/// message code.
pub open spec fn parse_pinf_header(b: Seq<u8>, pos: int) -> Result<(Header, int), Error> {
    match citp::parse_header(b, pos) {
        Err(e) => Err(e),
        Ok((h, p)) => if h.content_type != PINF {
            Err(Error::WrongLayer)
        } else {
            match parse_u32(b, p) {
                Err(e) => Err(e),
                Ok((t, q)) => Ok((Header { citp_header: h, content_type: t }, q)),
            }
        },
    }
}

/// Reading a peer name message at `pos`.
pub open spec fn parse_pnam(b: Seq<u8>, pos: int) -> Result<(Seq<u8>, int), Error> {
    parse_cstring(b, pos)
}

/// Reading a peer location message at `pos`: the port, then the three strings in order.
pub open spec fn parse_ploc(b: Seq<u8>, pos: int) -> Result<(PLocView, int), Error> {
    match parse_u16(b, pos) {
        Err(e) => Err(e),
        Ok((port, p1)) => match parse_cstring(b, p1) {
            Err(e) => Err(e),
            Ok((kind, p2)) => match parse_cstring(b, p2) {
                Err(e) => Err(e),
                Ok((name, p3)) => match parse_cstring(b, p3) {
                    Err(e) => Err(e),
                    Ok((state, p4)) => Ok(
                        (PLocView { listening_tcp_port: port, kind, name, state }, p4),
                    ),
                },
            },
        },
    }
}

/// Reading the payload that the message code `tag` announces.
pub open spec fn parse_payload(tag: u32, b: Seq<u8>, pos: int) -> Result<(PayloadView, int), Error> {
    if tag == PNAM {
        match parse_pnam(b, pos) {
            Err(e) => Err(e),
            Ok((name, e)) => Ok((PayloadView::PNam(name), e)),
        }
    } else if tag == PLOC {
        match parse_ploc(b, pos) {
            Err(e) => Err(e),
            Ok((v, e)) => Ok((PayloadView::PLoc(v), e)),
        }
    } else {
        Err(Error::UnknownMessageTag(tag))
    }
}

/// Reading a whole packet: header, payload, and then the declared size, which must be the
/// length of the buffer and the end of the payload.
pub open spec fn parse_packet(b: Seq<u8>) -> Result<MessageView, Error> {
    match parse_pinf_header(b, 0) {
        Err(e) => Err(e),
        Ok((h, p)) => match parse_payload(h.content_type, b, p) {
            Err(e) => Err(e),
            Ok((pl, e)) => if h.citp_header.message_size as int != b.len() || e != b.len() {
                Err(Error::SizeMismatch)
            } else {
                Ok(MessageView { pinf_header: h, message: pl })
            },
        },
    }
}

impl Header {
    /// Appends the base header and the message code.
    pub fn write_to_bytes(&self, out: &mut Vec<u8>)
        ensures
            final(out)@ == old(out)@ + header_bytes(*self),
            header_bytes(*self).len() == PINF_HEADER_SIZE,
    {
        self.citp_header.write_to_bytes(out);
        write_u32_le(out, self.content_type);
        assert(out@ =~= old(out)@ + header_bytes(*self));
    }

    /// Reads the base header at `pos`, refuses any layer but PINF, then reads the message
    /// code.
    pub fn read_from_bytes(buf: &[u8], pos: usize) -> (r: Result<(Header, usize), Error>)
        ensures
            match r {
                Ok((h, e)) => parse_pinf_header(buf@, pos as int) == Ok::<(Header, int), Error>(
                    (h, e as int),
                ),
                Err(x) => parse_pinf_header(buf@, pos as int) == Err::<(Header, int), Error>(x),
            },
    {
        let (citp_header, p) = citp::Header::read_from_bytes(buf, pos)?;
        if citp_header.content_type != PINF {
            return Err(Error::WrongLayer);
        }
        let (content_type, q) = read_u32_le(buf, p)?;
        Ok((Header { citp_header, content_type }, q))
    }
}

impl PNam {
    /// Appends the name and its terminator; fails on a name that holds a zero byte.
    pub fn write_to_bytes(&self, out: &mut Vec<u8>) -> (r: Result<(), Error>)
        ensures
            r is Ok <==> payload_wf(PayloadView::PNam(self@)),
            r is Ok ==> final(out)@ == old(out)@ + pnam_bytes(self@),
            r is Err ==> r == Err::<(), Error>(Error::InteriorNul),
    {
        write_cstring(out, self.name.as_slice())
    }

    /// Reads a peer name message at `pos`.
    pub fn read_from_bytes(buf: &[u8], pos: usize) -> (r: Result<(PNam, usize), Error>)
        ensures
            match r {
                Ok((v, e)) => parse_pnam(buf@, pos as int) == Ok::<(Seq<u8>, int), Error>(
                    (v@, e as int),
                ),
                Err(x) => parse_pnam(buf@, pos as int) == Err::<(Seq<u8>, int), Error>(x),
            },
    {
        let (name, e) = read_cstring(buf, pos)?;
        Ok((PNam { name }, e))
    }

    /// The number of bytes that the message takes on the wire.
    pub fn size_bytes(&self) -> (r: usize)
        requires
            self.name@.len() < usize::MAX,
        ensures
            r == pnam_bytes(self@).len(),
    {
        size_of_cstring(self.name.as_slice())
    }
}

impl PLoc {
    /// Appends the port and the three strings; fails on a string that holds a zero byte.
    pub fn write_to_bytes(&self, out: &mut Vec<u8>) -> (r: Result<(), Error>)
        ensures
            r is Ok <==> payload_wf(PayloadView::PLoc(self@)),
            r is Ok ==> final(out)@ == old(out)@ + ploc_bytes(self@),
            r is Err ==> r == Err::<(), Error>(Error::InteriorNul),
    {
        write_u16_le(out, self.listening_tcp_port);
        write_cstring(out, self.kind.as_slice())?;
        write_cstring(out, self.name.as_slice())?;
        write_cstring(out, self.state.as_slice())?;
        assert(out@ =~= old(out)@ + ploc_bytes(self@));
        Ok(())
    }

    /// Reads a peer location message at `pos`: the port, then kind, name and state.
    pub fn read_from_bytes(buf: &[u8], pos: usize) -> (r: Result<(PLoc, usize), Error>)
        ensures
            match r {
                Ok((v, e)) => parse_ploc(buf@, pos as int) == Ok::<(PLocView, int), Error>(
                    (v@, e as int),
                ),
                Err(x) => parse_ploc(buf@, pos as int) == Err::<(PLocView, int), Error>(x),
            },
    {
        let (listening_tcp_port, p1) = read_u16_le(buf, pos)?;
        let (kind, p2) = read_cstring(buf, p1)?;
        let (name, p3) = read_cstring(buf, p2)?;
        let (state, p4) = read_cstring(buf, p3)?;
        let ploc = PLoc { listening_tcp_port, kind, name, state };
        Ok((ploc, p4))
    }

    /// The number of bytes that the message takes on the wire.
    pub fn size_bytes(&self) -> (r: usize)
        requires
            5 + self.kind@.len() + self.name@.len() + self.state@.len() <= usize::MAX,
        ensures
            r == ploc_bytes(self@).len(),
    {
        2 + size_of_cstring(self.kind.as_slice()) + size_of_cstring(self.name.as_slice())
            + size_of_cstring(self.state.as_slice())
    }
}

impl Payload {
    /// The message code that announces this payload.
    pub fn content_type(&self) -> (r: u32)
        ensures
            r == payload_tag(self@),
    {
        match self {
            Payload::PNam(_) => PNAM,
            Payload::PLoc(_) => PLOC,
        }
    }

    /// Appends the payload's bytes; fails on a string that holds a zero byte.
    pub fn write_to_bytes(&self, out: &mut Vec<u8>) -> (r: Result<(), Error>)
        ensures
            r is Ok <==> payload_wf(self@),
            r is Ok ==> final(out)@ == old(out)@ + payload_bytes(self@),
            r is Err ==> r == Err::<(), Error>(Error::InteriorNul),
    {
        match self {
            Payload::PNam(p) => p.write_to_bytes(out),
            Payload::PLoc(p) => p.write_to_bytes(out),
        }
    }

    /// The size of a whole packet around this payload, where it fits the 32-bit size field.
    pub fn packet_size(&self) -> (r: Option<u32>)
        ensures
            r is Some <==> fits_u32(self@),
            r is Some ==> r->Some_0 as int == PINF_HEADER_SIZE + payload_bytes(self@).len(),
    {
        match self {
            Payload::PNam(p) => {
                if p.name.len() > 0xFFFF_FFFF {
                    return None;
                }
                let n: u64 = 24 + p.name.len() as u64 + 1;
                if n > 0xFFFF_FFFF {
                    None
                } else {
                    Some(n as u32)
                }
            },
            Payload::PLoc(p) => {
                if p.kind.len() > 0xFFFF_FFFF || p.name.len() > 0xFFFF_FFFF || p.state.len()
                    > 0xFFFF_FFFF {
                    return None;
                }
                let n: u64 = 24 + 2 + p.kind.len() as u64 + 1 + p.name.len() as u64 + 1
                    + p.state.len() as u64 + 1;
                if n > 0xFFFF_FFFF {
                    None
                } else {
                    Some(n as u32)
                }
            },
        }
    }
}

/// Reads the payload that the message code `tag` announces: a peer name, a peer location,
/// or an `UnknownMessageTag` error for any other code.
pub fn decode_message(tag: u32, buf: &[u8], pos: usize) -> (r: Result<(Payload, usize), Error>)
    ensures
        match r {
            Ok((v, e)) => parse_payload(tag, buf@, pos as int) == Ok::<(PayloadView, int), Error>(
                (v@, e as int),
            ),
            Err(x) => parse_payload(tag, buf@, pos as int) == Err::<(PayloadView, int), Error>(x),
        },
{
    if tag == PNAM {
        let (v, e) = PNam::read_from_bytes(buf, pos)?;
        Ok((Payload::PNam(v), e))
    } else if tag == PLOC {
        let (v, e) = PLoc::read_from_bytes(buf, pos)?;
        Ok((Payload::PLoc(v), e))
    } else {
        Err(Error::UnknownMessageTag(tag))
    }
}

impl Message {
    /// Wraps a payload in a PINF header that names its message and gives the exact packet
    /// size; fails where that size does not fit 32 bits.
    pub fn new(message: Payload) -> (r: Result<Message, Error>)
        ensures
            match r {
                Ok(m) => fits_u32(message@) && m@ == packet_of(message@),
                Err(e) => !fits_u32(message@) && e == Error::TooLarge,
            },
    {
        match message.packet_size() {
            None => Err(Error::TooLarge),
            Some(size) => {
                let content_type = message.content_type();
                let pinf_header = Header {
                    citp_header: citp::Header::new(size, PINF),
                    content_type,
                };
                Ok(Message { pinf_header, message })
            },
        }
    }

    /// Appends the header as it stands, then the payload; fails on a string that holds a
    /// zero byte.
    pub fn write_to_bytes(&self, out: &mut Vec<u8>) -> (r: Result<(), Error>)
        ensures
            r is Ok <==> payload_wf(self@.message),
            r is Ok ==> final(out)@ == old(out)@ + message_bytes(self@),
            r is Err ==> r == Err::<(), Error>(Error::InteriorNul),
    {
        self.pinf_header.write_to_bytes(out);
        self.message.write_to_bytes(out)?;
        assert(out@ =~= old(out)@ + message_bytes(self@));
        Ok(())
    }

    /// Reads a whole packet: the PINF header, the payload its code announces, and a check
    /// that the declared size is the buffer's length and the payload's end.
    pub fn read_from_bytes(buf: &[u8]) -> (r: Result<Message, Error>)
        ensures
            match r {
                Ok(m) => parse_packet(buf@) == Ok::<MessageView, Error>(m@),
                Err(x) => parse_packet(buf@) == Err::<MessageView, Error>(x),
            },
    {
        let (pinf_header, p) = Header::read_from_bytes(buf, 0)?;
        let (message, e) = decode_message(pinf_header.content_type, buf, p)?;
        if pinf_header.citp_header.message_size as u64 != buf.len() as u64 || e != buf.len() {
            return Err(Error::SizeMismatch);
        }
        Ok(Message { pinf_header, message })
    }
}

/// What encoding the payload `p` gives: the bytes of the packet that the encoder builds
/// around it, or `TooLarge` where the packet does not fit 32 bits, or else `InteriorNul` where
/// a string holds a zero byte.
pub open spec fn encodes_as(p: PayloadView, r: Result<Vec<u8>, Error>) -> bool {
    match r {
        Ok(b) => {
            &&& payload_wf(p)
            &&& fits_u32(p)
            &&& b@ == message_bytes(packet_of(p))
            &&& message_wf(packet_of(p))
            &&& b@.len() == PINF_HEADER_SIZE + payload_bytes(p).len()
            &&& u32_at(b@, 8) == b@.len()
        },
        Err(e) => {
            ||| !fits_u32(p) && e == Error::TooLarge
            ||| fits_u32(p) && !payload_wf(p) && e == Error::InteriorNul
        },
    }
}

/// Encodes a whole packet around the payload, with the PINF header that names it and the
/// exact size.
pub fn encode_packet(payload: Payload) -> (r: Result<Vec<u8>, Error>)
    ensures
        encodes_as(payload@, r),
{
    let ghost p = payload@;
    let m = Message::new(payload)?;
    let mut out: Vec<u8> = Vec::new();
    m.write_to_bytes(&mut out)?;
    proof {
        assert(out@ =~= message_bytes(packet_of(p)));
        crate::laws::lemma_packet_of_wf(p);
        crate::laws::lemma_total_size(packet_of(p));
    }
    Ok(out)
}

/// Encodes a peer name packet.
pub fn encode_peer_name(name: Vec<u8>) -> (r: Result<Vec<u8>, Error>)
    ensures
        encodes_as(PayloadView::PNam(name@), r),
{
    encode_packet(Payload::PNam(PNam { name }))
}

/// Encodes a peer location packet.
pub fn encode_peer_location(listening_tcp_port: u16, kind: Vec<u8>, name: Vec<u8>, state: Vec<u8>) -> (r:
    Result<Vec<u8>, Error>)
    ensures
        encodes_as(
            PayloadView::PLoc(
                PLocView { listening_tcp_port, kind: kind@, name: name@, state: state@ },
            ),
            r,
        ),
{
    encode_packet(Payload::PLoc(PLoc { listening_tcp_port, kind, name, state }))
}

/// Decodes a whole packet and hands back its message.
pub fn decode_packet(buf: &[u8]) -> (r: Result<Payload, Error>)
    ensures
        match r {
            Ok(p) => parse_packet(buf@) is Ok && parse_packet(buf@)->Ok_0.message == p@,
            Err(x) => parse_packet(buf@) == Err::<MessageView, Error>(x),
        },
{
    let m = Message::read_from_bytes(buf)?;
    Ok(m.message)
}

} // verus!
