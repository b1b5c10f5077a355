//! What holds of the codec as a whole: decoding undoes encoding, sizes are exact, and the
//! ways a malformed buffer is refused.

use crate::citp::{lemma_header_round_trip, magic};
use crate::codec::{
    cstr, le16, le32, lemma_cstring_cut, lemma_cstring_found, lemma_le16, lemma_le32, u32_at,
    Error,
};
use crate::pinf::{
    header_bytes, message_bytes, message_wf, parse_packet, parse_payload, parse_pinf_header,
    fits_u32, packet_of, payload_bytes, payload_tag, payload_wf, PayloadView, PLOC, PNAM,
};
use vstd::prelude::*;

verus! {

/// A window of `b` inside a stretch that equals `w` is the same window of `w`.
proof fn lemma_window(b: Seq<u8>, pos: int, w: Seq<u8>, a: int, c: int)
    requires
        0 <= pos,
        pos + w.len() <= b.len(),
        b.subrange(pos, pos + w.len()) == w,
        0 <= a <= c <= w.len(),
    ensures
        b.subrange(pos + a, pos + c) == w.subrange(a, c),
{
    assert forall|i: int| 0 <= i < c - a implies b.subrange(pos + a, pos + c)[i] == w.subrange(
        a,
        c,
    )[i] by {
        assert(b[pos + a + i] == b.subrange(pos, pos + w.len())[a + i]);
    }
    assert(b.subrange(pos + a, pos + c) =~= w.subrange(a, c));
}

/// A payload written out at `pos` reads back as itself, under the code that announces it,
/// and reading stops at its end.
pub proof fn lemma_payload_round_trip(p: PayloadView, b: Seq<u8>, pos: int)
    requires
        payload_wf(p),
        0 <= pos,
        pos + payload_bytes(p).len() <= b.len(),
        b.subrange(pos, pos + payload_bytes(p).len()) == payload_bytes(p),
    ensures
        parse_payload(payload_tag(p), b, pos) == Ok::<(PayloadView, int), Error>(
            (p, pos + payload_bytes(p).len()),
        ),
{
    let w = payload_bytes(p);
    match p {
        PayloadView::PNam(name) => {
            lemma_cstring_found(b, pos, name);
        },
        PayloadView::PLoc(v) => {
            let k = v.kind.len() as int;
            let n = v.name.len() as int;
            let s = v.state.len() as int;
            assert(w.subrange(0, 2) =~= le16(v.listening_tcp_port));
            assert(w.subrange(2, 3 + k) =~= cstr(v.kind));
            assert(w.subrange(3 + k, 4 + k + n) =~= cstr(v.name));
            assert(w.subrange(4 + k + n, 5 + k + n + s) =~= cstr(v.state));
            lemma_window(b, pos, w, 0, 2);
            lemma_le16(b, pos, v.listening_tcp_port);
            lemma_window(b, pos, w, 2, 3 + k);
            lemma_cstring_found(b, pos + 2, v.kind);
            lemma_window(b, pos, w, 3 + k, 4 + k + n);
            lemma_cstring_found(b, pos + 3 + k, v.name);
            lemma_window(b, pos, w, 4 + k + n, 5 + k + n + s);
            lemma_cstring_found(b, pos + 4 + k + n, v.state);
        },
    }
}

/// Decoding undoes encoding: a well-formed packet written out reads back as itself.
pub proof fn lemma_round_trip(m: crate::pinf::MessageView)
    requires
        message_wf(m),
    ensures
        parse_packet(message_bytes(m)) == Ok::<crate::pinf::MessageView, Error>(m),
{
    let b = message_bytes(m);
    let h = m.pinf_header;
    let hb = header_bytes(h);
    let pb = payload_bytes(m.message);
    assert(hb.len() == 24);
    assert(b.subrange(0, 20) =~= h.citp_header.spec_bytes());
    lemma_header_round_trip(h.citp_header, b, 0);
    assert(b.subrange(20, 24) =~= le32(h.content_type));
    lemma_le32(b, 20, h.content_type);
    assert(parse_pinf_header(b, 0) == Ok::<(crate::pinf::Header, int), Error>((h, 24)));
    assert(b.subrange(24, 24 + pb.len() as int) =~= pb);
    lemma_payload_round_trip(m.message, b, 24);
}

/// The packet that the encoder builds around a writable payload is well-formed: it names the
/// PINF layer and the payload's message, and declares its exact size.
pub proof fn lemma_packet_of_wf(p: PayloadView)
    requires
        payload_wf(p),
        fits_u32(p),
    ensures
        message_wf(packet_of(p)),
{
    let m = packet_of(p);
    assert(header_bytes(m.pinf_header).len() == 24);
}

/// Decoding what the encoder makes of a writable payload gives back that payload, inside the
/// header that the encoder built for it.
pub proof fn lemma_encode_decode(p: PayloadView)
    requires
        payload_wf(p),
        fits_u32(p),
    ensures
        parse_packet(message_bytes(packet_of(p))) == Ok::<crate::pinf::MessageView, Error>(
            packet_of(p),
        ),
        parse_packet(message_bytes(packet_of(p)))->Ok_0.message == p,
{
    lemma_packet_of_wf(p);
    lemma_round_trip(packet_of(p));
}

/// The size field of a well-formed packet, the four bytes at offset 8, holds the length of
/// the whole packet.
pub proof fn lemma_total_size(m: crate::pinf::MessageView)
    requires
        message_wf(m),
    ensures
        u32_at(message_bytes(m), 8) == message_bytes(m).len(),
{
    let b = message_bytes(m);
    let c = m.pinf_header.citp_header;
    let w = c.spec_bytes();
    assert(b.subrange(0, 20) =~= w);
    assert(w.subrange(8, 12) =~= le32(c.message_size));
    lemma_window(b, 0, w, 8, 12);
    lemma_le32(b, 8, c.message_size);
}

/// Any buffer whose first four bytes are not "CITP" is refused with `BadMagic`.
pub proof fn lemma_bad_magic(b: Seq<u8>)
    requires
        b.len() >= 4,
        b.subrange(0, 4) != magic(),
    ensures
        parse_packet(b) == Err::<crate::pinf::MessageView, Error>(Error::BadMagic),
{
}

/// A buffer whose PINF header reads well but whose message code is neither "PNam" nor "PLoc"
/// is refused with `UnknownMessageTag`, carrying that code.
pub proof fn lemma_unknown_tag(b: Seq<u8>)
    requires
        parse_pinf_header(b, 0) is Ok,
        parse_pinf_header(b, 0)->Ok_0.0.content_type != PNAM,
        parse_pinf_header(b, 0)->Ok_0.0.content_type != PLOC,
    ensures
        parse_packet(b) == Err::<crate::pinf::MessageView, Error>(
            Error::UnknownMessageTag(parse_pinf_header(b, 0)->Ok_0.0.content_type),
        ),
{
}

/// The error that reading a well-formed packet cut to its first `k` bytes gives: the cut
/// falls in the fixed-width header or port, or inside one of the strings.
pub open spec fn truncation_error(p: PayloadView, k: int) -> Error {
    if k < 24 || (p is PLoc && k < 26) {
        Error::UnexpectedEof
    } else {
        Error::UnterminatedString
    }
}

/// A window of the first `k` bytes is that window of the whole.
proof fn lemma_take_window(b: Seq<u8>, k: int, a: int, c: int)
    requires
        0 <= a <= c <= k <= b.len(),
    ensures
        b.take(k).subrange(a, c) == b.subrange(a, c),
{
    assert(b.take(k).subrange(a, c) =~= b.subrange(a, c));
}

/// A string of the payload at offset `a` of `t`, the first `t.len()` bytes of `b`: where `t`
/// ends before the string's terminator it fails to read, else it reads whole.
proof fn lemma_string_in_cut(b: Seq<u8>, t: Seq<u8>, a: int, s: Seq<u8>)
    requires
        0 <= a,
        a + s.len() + 1 <= b.len(),
        b.subrange(a, a + s.len() + 1) == cstr(s),
        crate::codec::no_nul(s),
        t.len() <= b.len(),
        t == b.take(t.len() as int),
        a <= t.len(),
    ensures
        t.len() <= a + s.len() ==> crate::codec::parse_cstring(t, a) == Err::<(Seq<u8>, int), Error>(
            Error::UnterminatedString,
        ),
        t.len() > a + s.len() ==> crate::codec::parse_cstring(t, a) == Ok::<(Seq<u8>, int), Error>(
            (s, a + s.len() + 1),
        ),
{
    let k = t.len() as int;
    if k <= a + s.len() {
        lemma_take_window(b, k, a, k);
        assert(b.subrange(a, k) =~= cstr(s).subrange(0, k - a));
        assert(cstr(s).subrange(0, k - a) =~= s.take(k - a));
        lemma_cstring_cut(t, a, s);
    } else {
        lemma_take_window(b, k, a, a + s.len() + 1);
        lemma_cstring_found(t, a, s);
    }
}

/// A peer location message at offset 24 of `b`, which ends with it, cut to `k` bytes.
proof fn lemma_truncated_ploc(v: crate::pinf::PLocView, b: Seq<u8>, k: int)
    requires
        payload_wf(PayloadView::PLoc(v)),
        b.len() == 24 + crate::pinf::ploc_bytes(v).len(),
        b.subrange(24, b.len() as int) == crate::pinf::ploc_bytes(v),
        26 <= k < b.len(),
    ensures
        crate::pinf::parse_ploc(b.take(k), 24) is Err,
        crate::pinf::parse_ploc(b.take(k), 24)->Err_0 == Error::UnterminatedString,
{
    let t = b.take(k);
    let w = crate::pinf::ploc_bytes(v);
    let kl = v.kind.len() as int;
    let nl = v.name.len() as int;
    let sl = v.state.len() as int;
    assert(w.subrange(0, 2) =~= le16(v.listening_tcp_port));
    assert(w.subrange(2, 3 + kl) =~= cstr(v.kind));
    assert(w.subrange(3 + kl, 4 + kl + nl) =~= cstr(v.name));
    assert(w.subrange(4 + kl + nl, 5 + kl + nl + sl) =~= cstr(v.state));
    lemma_window(b, 24, w, 0, 2);
    lemma_take_window(b, k, 24, 26);
    lemma_le16(t, 24, v.listening_tcp_port);
    lemma_window(b, 24, w, 2, 3 + kl);
    lemma_string_in_cut(b, t, 26, v.kind);
    if k > 26 + kl {
        lemma_window(b, 24, w, 3 + kl, 4 + kl + nl);
        lemma_string_in_cut(b, t, 27 + kl, v.name);
        if k > 27 + kl + nl {
            lemma_window(b, 24, w, 4 + kl + nl, 5 + kl + nl + sl);
            lemma_string_in_cut(b, t, 28 + kl + nl, v.state);
        }
    }
}

/// The PINF header of a well-formed packet, read from its first `k` bytes.
proof fn lemma_truncated_header(m: crate::pinf::MessageView, k: int)
    requires
        message_wf(m),
        0 <= k <= message_bytes(m).len(),
    ensures
        k < 24 ==> parse_pinf_header(message_bytes(m).take(k), 0) == Err::<
            (crate::pinf::Header, int),
            Error,
        >(Error::UnexpectedEof),
        k >= 24 ==> parse_pinf_header(message_bytes(m).take(k), 0) == Ok::<
            (crate::pinf::Header, int),
            Error,
        >((m.pinf_header, 24)),
{
    let b = message_bytes(m);
    let t = b.take(k);
    let h = m.pinf_header;
    let c = h.citp_header;
    assert(b.subrange(0, 20) =~= c.spec_bytes());
    if k < 4 {
    } else if k < 20 {
        lemma_take_window(b, k, 0, 4);
        assert(c.spec_bytes().subrange(0, 4) =~= magic());
        assert(b.subrange(0, 4) =~= c.spec_bytes().subrange(0, 4));
    } else {
        lemma_take_window(b, k, 0, 20);
        lemma_header_round_trip(c, t, 0);
        if k >= 24 {
            lemma_take_window(b, k, 20, 24);
            assert(b.subrange(20, 24) =~= le32(h.content_type));
            lemma_le32(t, 20, h.content_type);
        }
    }
}

/// A well-formed packet cut short fails to read: with `UnexpectedEof` where the cut falls in
/// a fixed-width field, with `UnterminatedString` where it falls in a string.
pub proof fn lemma_truncated(m: crate::pinf::MessageView, k: int)
    requires
        message_wf(m),
        0 <= k < message_bytes(m).len(),
    ensures
        parse_packet(message_bytes(m).take(k)) == Err::<crate::pinf::MessageView, Error>(
            truncation_error(m.message, k),
        ),
{
    let b = message_bytes(m);
    let t = b.take(k);
    let w = payload_bytes(m.message);
    lemma_truncated_header(m, k);
    if k >= 24 {
        assert(b.subrange(24, b.len() as int) =~= w);
        match m.message {
            PayloadView::PNam(name) => {
                assert(b.subrange(24, 24 + name.len() as int + 1) =~= cstr(name));
                lemma_string_in_cut(b, t, 24, name);
            },
            PayloadView::PLoc(v) => {
                if k >= 26 {
                    lemma_truncated_ploc(v, b, k);
                }
            },
        }
    }
}

} // verus!
