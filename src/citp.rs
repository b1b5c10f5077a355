//! The base header that opens every CITP packet.

use crate::codec::{
    le16, le32, lemma_le16, lemma_le32, read_u16_le, read_u32_le, u16_at, u32_at, write_u16_le,
    write_u32_le, Error,
};
use vstd::prelude::*;

verus! {

/// The number of bytes of the base header on the wire.
pub const HEADER_SIZE: usize = 20;

/// The major version written into new packets.
pub const VERSION_MAJOR: u8 = 1;

/// The minor version written into new packets.
pub const VERSION_MINOR: u8 = 0;

/// The cookie "CITP" that opens every packet.
pub open spec fn magic() -> Seq<u8> {
    seq![0x43u8, 0x49u8, 0x54u8, 0x50u8]
}

/// The base header: everything of the first twenty bytes but the constant cookie.
#[derive(Debug, Clone, Copy, PartialEq, Eq, Structural)]
pub struct Header {
    pub version_major: u8,
    pub version_minor: u8,
    /// The index of a request, or of the request that this message answers.
    pub request_index: u16,
    /// The number of bytes of the whole packet, this header included.
    pub message_size: u32,
    pub message_part_count: u16,
    pub message_part: u16,
    /// The four-character code of the layer that the rest of the packet belongs to.
    pub content_type: u32,
}

/// Reading a base header at `pos`: the header and the position after it.
pub open spec fn parse_header(b: Seq<u8>, pos: int) -> Result<(Header, int), Error> {
    if pos + 4 > b.len() {
        Err(Error::UnexpectedEof)
    } else if b.subrange(pos, pos + 4) != magic() {
        Err(Error::BadMagic)
    } else if pos + 20 > b.len() {
        Err(Error::UnexpectedEof)
    } else {
        Ok(
            (
                Header {
                    version_major: b[pos + 4],
                    version_minor: b[pos + 5],
                    request_index: u16_at(b, pos + 6),
                    message_size: u32_at(b, pos + 8),
                    message_part_count: u16_at(b, pos + 12),
                    message_part: u16_at(b, pos + 14),
                    content_type: u32_at(b, pos + 16),
                },
                pos + 20,
            ),
        )
    }
}

impl Header {
    /// The header's bytes on the wire.
    pub open spec fn spec_bytes(self) -> Seq<u8> {
        magic() + seq![self.version_major, self.version_minor] + le16(self.request_index) + le32(
            self.message_size,
        ) + le16(self.message_part_count) + le16(self.message_part) + le32(self.content_type)
    }

    /// The header of a new single-part packet of `message_size` bytes in layer `content_type`.
    pub open spec fn spec_new(message_size: u32, content_type: u32) -> Header {
        Header {
            version_major: VERSION_MAJOR,
            version_minor: VERSION_MINOR,
            request_index: 0,
            message_size,
            message_part_count: 1,
            message_part: 0,
            content_type,
        }
    }

    /// Makes the header of a new single-part packet.
    pub fn new(message_size: u32, content_type: u32) -> (r: Header)
        ensures
            r == Header::spec_new(message_size, content_type),
    {
        Header {
            version_major: VERSION_MAJOR,
            version_minor: VERSION_MINOR,
            request_index: 0,
            message_size,
            message_part_count: 1,
            message_part: 0,
            content_type,
        }
    }

    /// Appends the header's twenty bytes.
    pub fn write_to_bytes(&self, out: &mut Vec<u8>)
        ensures
            final(out)@ == old(out)@ + self.spec_bytes(),
            self.spec_bytes().len() == HEADER_SIZE,
    {
        out.push(0x43u8);
        out.push(0x49u8);
        out.push(0x54u8);
        out.push(0x50u8);
        out.push(self.version_major);
        out.push(self.version_minor);
        write_u16_le(out, self.request_index);
        write_u32_le(out, self.message_size);
        write_u16_le(out, self.message_part_count);
        write_u16_le(out, self.message_part);
        write_u32_le(out, self.content_type);
        assert(out@ =~= old(out)@ + self.spec_bytes());
    }

    /// Reads a base header at `pos`, checking its cookie; the declared size is left to the
    /// caller.
    pub fn read_from_bytes(buf: &[u8], pos: usize) -> (r: Result<(Header, usize), Error>)
        ensures
            match r {
                Ok((h, e)) => parse_header(buf@, pos as int) == Ok::<(Header, int), Error>(
                    (h, e as int),
                ),
                Err(x) => parse_header(buf@, pos as int) == Err::<(Header, int), Error>(x),
            },
    {
        if pos > buf.len() || buf.len() - pos < 4 {
            return Err(Error::UnexpectedEof);
        }
        if !(buf[pos] == 0x43u8 && buf[pos + 1] == 0x49u8 && buf[pos + 2] == 0x54u8 && buf[pos
            + 3] == 0x50u8) {
            assert(buf@.subrange(pos as int, pos + 4) != magic()) by {
                let w = buf@.subrange(pos as int, pos + 4);
                assert(w[0] == buf@[pos as int] && w[1] == buf@[pos + 1] && w[2] == buf@[pos + 2]
                    && w[3] == buf@[pos + 3]);
            }
            return Err(Error::BadMagic);
        }
        assert(buf@.subrange(pos as int, pos + 4) =~= magic());
        if buf.len() - pos < 20 {
            return Err(Error::UnexpectedEof);
        }
        let version_major = buf[pos + 4];
        let version_minor = buf[pos + 5];
        let (request_index, _) = read_u16_le(buf, pos + 6)?;
        let (message_size, _) = read_u32_le(buf, pos + 8)?;
        let (message_part_count, _) = read_u16_le(buf, pos + 12)?;
        let (message_part, _) = read_u16_le(buf, pos + 14)?;
        let (content_type, _) = read_u32_le(buf, pos + 16)?;
        Ok(
            (
                Header {
                    version_major,
                    version_minor,
                    request_index,
                    message_size,
                    message_part_count,
                    message_part,
                    content_type,
                },
                pos + 20,
            ),
        )
    }
}

/// A base header written out reads back as itself.
pub proof fn lemma_header_round_trip(h: Header, b: Seq<u8>, pos: int)
    requires
        0 <= pos,
        pos + 20 <= b.len(),
        b.subrange(pos, pos + 20) == h.spec_bytes(),
    ensures
        parse_header(b, pos) == Ok::<(Header, int), Error>((h, pos + 20)),
{
    let w = h.spec_bytes();
    let p1 = magic() + seq![h.version_major, h.version_minor];
    let p2 = p1 + le16(h.request_index);
    let p3 = p2 + le32(h.message_size);
    let p4 = p3 + le16(h.message_part_count);
    let p5 = p4 + le16(h.message_part);
    assert(w == p5 + le32(h.content_type));
    assert(w.subrange(0, 4) =~= magic());
    assert(w.subrange(6, 8) =~= le16(h.request_index));
    assert(w.subrange(8, 12) =~= le32(h.message_size));
    assert(w.subrange(12, 14) =~= le16(h.message_part_count));
    assert(w.subrange(14, 16) =~= le16(h.message_part));
    assert(w.subrange(16, 20) =~= le32(h.content_type));
    assert(b.subrange(pos, pos + 4) =~= w.subrange(0, 4));
    assert(b[pos + 4] == w[4]);
    assert(b[pos + 5] == w[5]);
    assert(b.subrange(pos + 6, pos + 8) =~= w.subrange(6, 8));
    lemma_le16(b, pos + 6, h.request_index);
    assert(b.subrange(pos + 8, pos + 12) =~= w.subrange(8, 12));
    lemma_le32(b, pos + 8, h.message_size);
    assert(b.subrange(pos + 12, pos + 14) =~= w.subrange(12, 14));
    lemma_le16(b, pos + 12, h.message_part_count);
    assert(b.subrange(pos + 14, pos + 16) =~= w.subrange(14, 16));
    lemma_le16(b, pos + 14, h.message_part);
    assert(b.subrange(pos + 16, pos + 20) =~= w.subrange(16, 20));
    lemma_le32(b, pos + 16, h.content_type);
}

} // verus!
