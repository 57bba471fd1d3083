//! The wire format of the signalling messages.
//!
//! A message travels as one binary frame. Numbers are written with their
//! lowest byte first, in 2, 4 or 8 bytes. A text is the number of its UTF-8
//! bytes in 8 bytes, then those bytes. An optional value is one byte, 0 or 1,
//! and after a 1 the value. A message is the position of its variant in its
//! vocabulary, in 4 bytes, then the variant's fields in order. Bytes that
//! follow a message in its frame are not read.

use vstd::prelude::*;
use vstd::slice::{slice_subrange, slice_to_vec};
use vstd::string::*;
use vstd::utf8::*;

use crate::protocol::{
    ClientMessage, ClientReceiverMessage, ClientSenderMessage, IceCandidate, IceCandidateView,
    ServerReceiverMessage, ServerSenderMessage, SessionDescription, SignalView,
};

verus! {

/// The 2 bytes of a number, lowest first.
#[verifier::opaque]
pub open spec fn wire_u16(value: u16) -> Seq<u8> {
    seq![(value % 256) as u8, (value / 256) as u8]
}

/// The 4 bytes of a number, lowest first.
#[verifier::opaque]
pub open spec fn wire_u32(value: u32) -> Seq<u8> {
    seq![
        (value % 256) as u8,
        (value / 0x100 % 256) as u8,
        (value / 0x1_0000 % 256) as u8,
        (value / 0x100_0000) as u8,
    ]
}

/// The 8 bytes of a number, lowest first.
#[verifier::opaque]
pub open spec fn wire_u64(value: u64) -> Seq<u8> {
    seq![
        (value % 256) as u8,
        (value / 0x100 % 256) as u8,
        (value / 0x1_0000 % 256) as u8,
        (value / 0x100_0000 % 256) as u8,
        (value / 0x1_0000_0000 % 256) as u8,
        (value / 0x100_0000_0000 % 256) as u8,
        (value / 0x1_0000_0000_0000 % 256) as u8,
        (value / 0x100_0000_0000_0000) as u8,
    ]
}

/// The number that the first 2 bytes of `bytes` say.
#[verifier::opaque]
pub open spec fn read_u16(bytes: Seq<u8>) -> u16
    recommends
        bytes.len() >= 2,
{
    (bytes[0] + bytes[1] * 0x100) as u16
}

/// The number that the first 4 bytes of `bytes` say.
#[verifier::opaque]
pub open spec fn read_u32(bytes: Seq<u8>) -> u32
    recommends
        bytes.len() >= 4,
{
    (bytes[0] + bytes[1] * 0x100 + bytes[2] * 0x1_0000 + bytes[3] * 0x100_0000) as u32
}

/// The number that the first 8 bytes of `bytes` say.
#[verifier::opaque]
pub open spec fn read_u64(bytes: Seq<u8>) -> u64
    recommends
        bytes.len() >= 8,
{
    (bytes[0] + bytes[1] * 0x100 + bytes[2] * 0x1_0000 + bytes[3] * 0x100_0000 + bytes[4]
        * 0x1_0000_0000 + bytes[5] * 0x100_0000_0000 + bytes[6] * 0x1_0000_0000_0000 + bytes[7]
        * 0x100_0000_0000_0000) as u64
}

/// Reading what was written gives the number back, whatever follows it.
pub proof fn lemma_numbers_round_trip(a: u16, b: u32, c: u64, rest: Seq<u8>)
    ensures
        read_u16(wire_u16(a) + rest) == a,
        read_u32(wire_u32(b) + rest) == b,
        read_u64(wire_u64(c) + rest) == c,
        wire_u16(a).len() == 2,
        wire_u32(b).len() == 4,
        wire_u64(c).len() == 8,
{
    reveal(wire_u16);
    reveal(wire_u32);
    reveal(wire_u64);
    reveal(read_u16);
    reveal(read_u32);
    reveal(read_u64);
    let wa = wire_u16(a) + rest;
    assert(wa[0] == (a % 256) as u8 && wa[1] == (a / 256) as u8);
    assert(((a % 256) as u8) + ((a / 256) as u8) * 0x100 == a) by (bit_vector);
    let wb = wire_u32(b) + rest;
    assert(wb[0] == (b % 256) as u8 && wb[1] == (b / 0x100 % 256) as u8 && wb[2] == (b / 0x1_0000
        % 256) as u8 && wb[3] == (b / 0x100_0000) as u8);
    assert(((b % 256) as u8) + ((b / 0x100 % 256) as u8) * 0x100 + ((b / 0x1_0000 % 256) as u8)
        * 0x1_0000 + ((b / 0x100_0000) as u8) * 0x100_0000 == b) by (bit_vector);
    let wc = wire_u64(c) + rest;
    assert(wc[0] == (c % 256) as u8 && wc[1] == (c / 0x100 % 256) as u8 && wc[2] == (c / 0x1_0000
        % 256) as u8 && wc[3] == (c / 0x100_0000 % 256) as u8 && wc[4] == (c / 0x1_0000_0000
        % 256) as u8 && wc[5] == (c / 0x100_0000_0000 % 256) as u8 && wc[6] == (c
        / 0x1_0000_0000_0000 % 256) as u8 && wc[7] == (c / 0x100_0000_0000_0000) as u8);
    assert(((c % 256) as u8) + ((c / 0x100 % 256) as u8) * 0x100 + ((c / 0x1_0000 % 256) as u8)
        * 0x1_0000 + ((c / 0x100_0000 % 256) as u8) * 0x100_0000 + ((c / 0x1_0000_0000
        % 256) as u8) * 0x1_0000_0000 + ((c / 0x100_0000_0000 % 256) as u8) * 0x100_0000_0000 + ((c
        / 0x1_0000_0000_0000 % 256) as u8) * 0x1_0000_0000_0000 + ((c
        / 0x100_0000_0000_0000) as u8) * 0x100_0000_0000_0000 == c) by (bit_vector);
}

proof fn lemma_bytes_to_u16(b0: u8, b1: u8)
    ensures
        b0 + b1 * 0x100 <= u16::MAX,
        (b0 + b1 * 0x100) % 256 == b0,
        (b0 + b1 * 0x100) / 256 == b1,
{
    assert(b0 + b1 * 0x100 <= 0xffff && (b0 + b1 * 0x100) % 256 == b0 && (b0 + b1 * 0x100) / 256
        == b1) by (bit_vector);
}

proof fn lemma_bytes_to_u32(b0: u8, b1: u8, b2: u8, b3: u8)
    ensures
        b0 + b1 * 0x100 + b2 * 0x1_0000 + b3 * 0x100_0000 <= u32::MAX,
        (b0 + b1 * 0x100 + b2 * 0x1_0000 + b3 * 0x100_0000) % 256 == b0,
        (b0 + b1 * 0x100 + b2 * 0x1_0000 + b3 * 0x100_0000) / 0x100 % 256 == b1,
        (b0 + b1 * 0x100 + b2 * 0x1_0000 + b3 * 0x100_0000) / 0x1_0000 % 256 == b2,
        (b0 + b1 * 0x100 + b2 * 0x1_0000 + b3 * 0x100_0000) / 0x100_0000 == b3,
{
    assert(b0 + b1 * 0x100 + b2 * 0x1_0000 + b3 * 0x100_0000 <= 0xffff_ffff && (b0 + b1 * 0x100
        + b2 * 0x1_0000 + b3 * 0x100_0000) % 256 == b0 && (b0 + b1 * 0x100 + b2 * 0x1_0000 + b3
        * 0x100_0000) / 0x100 % 256 == b1 && (b0 + b1 * 0x100 + b2 * 0x1_0000 + b3 * 0x100_0000)
        / 0x1_0000 % 256 == b2 && (b0 + b1 * 0x100 + b2 * 0x1_0000 + b3 * 0x100_0000)
        / 0x100_0000 == b3) by (bit_vector);
}

spec fn sum8(b0: u8, b1: u8, b2: u8, b3: u8, b4: u8, b5: u8, b6: u8, b7: u8) -> int {
    b0 + b1 * 0x100 + b2 * 0x1_0000 + b3 * 0x100_0000 + b4 * 0x1_0000_0000 + b5 * 0x100_0000_0000
        + b6 * 0x1_0000_0000_0000 + b7 * 0x100_0000_0000_0000
}

proof fn lemma_bytes_to_u64(b0: u8, b1: u8, b2: u8, b3: u8, b4: u8, b5: u8, b6: u8, b7: u8)
    ensures
        sum8(b0, b1, b2, b3, b4, b5, b6, b7) <= u64::MAX,
        sum8(b0, b1, b2, b3, b4, b5, b6, b7) % 256 == b0,
        sum8(b0, b1, b2, b3, b4, b5, b6, b7) / 0x100 % 256 == b1,
        sum8(b0, b1, b2, b3, b4, b5, b6, b7) / 0x1_0000 % 256 == b2,
        sum8(b0, b1, b2, b3, b4, b5, b6, b7) / 0x100_0000 % 256 == b3,
        sum8(b0, b1, b2, b3, b4, b5, b6, b7) / 0x1_0000_0000 % 256 == b4,
        sum8(b0, b1, b2, b3, b4, b5, b6, b7) / 0x100_0000_0000 % 256 == b5,
        sum8(b0, b1, b2, b3, b4, b5, b6, b7) / 0x1_0000_0000_0000 % 256 == b6,
        sum8(b0, b1, b2, b3, b4, b5, b6, b7) / 0x100_0000_0000_0000 == b7,
{
    let low = b0 + b1 * 0x100 + b2 * 0x1_0000 + b3 * 0x100_0000;
    let high = b4 + b5 * 0x100 + b6 * 0x1_0000 + b7 * 0x100_0000;
    lemma_bytes_to_u32(b0, b1, b2, b3);
    lemma_bytes_to_u32(b4, b5, b6, b7);
    let l = low as u32;
    let h = high as u32;
    assert(sum8(b0, b1, b2, b3, b4, b5, b6, b7) == l + h * 0x1_0000_0000);
    assert(l + h * 0x1_0000_0000 <= 0xffff_ffff_ffff_ffff && (l + h * 0x1_0000_0000) % 256 == l
        % 256 && (l + h * 0x1_0000_0000) / 0x100 % 256 == l / 0x100 % 256 && (l + h
        * 0x1_0000_0000) / 0x1_0000 % 256 == l / 0x1_0000 % 256 && (l + h * 0x1_0000_0000)
        / 0x100_0000 % 256 == l / 0x100_0000 && (l + h * 0x1_0000_0000) / 0x1_0000_0000 % 256 == h
        % 256 && (l + h * 0x1_0000_0000) / 0x100_0000_0000 % 256 == h / 0x100 % 256 && (l + h
        * 0x1_0000_0000) / 0x1_0000_0000_0000 % 256 == h / 0x1_0000 % 256 && (l + h
        * 0x1_0000_0000) / 0x100_0000_0000_0000 == h / 0x100_0000) by (bit_vector);
}

/// Writing what was read gives the bytes back.
pub proof fn lemma_bytes_round_trip(bytes: Seq<u8>)
    ensures
        bytes.len() >= 2 ==> wire_u16(read_u16(bytes)) == bytes.take(2),
        bytes.len() >= 4 ==> wire_u32(read_u32(bytes)) == bytes.take(4),
        bytes.len() >= 8 ==> wire_u64(read_u64(bytes)) == bytes.take(8),
{
    reveal(wire_u16);
    reveal(wire_u32);
    reveal(wire_u64);
    reveal(read_u16);
    reveal(read_u32);
    reveal(read_u64);
    if bytes.len() >= 2 {
        lemma_bytes_to_u16(bytes[0], bytes[1]);
        assert(wire_u16(read_u16(bytes)) =~= bytes.take(2));
    }
    if bytes.len() >= 4 {
        lemma_bytes_to_u32(bytes[0], bytes[1], bytes[2], bytes[3]);
        assert(wire_u32(read_u32(bytes)) =~= bytes.take(4));
    }
    if bytes.len() >= 8 {
        lemma_bytes_to_u64(
            bytes[0],
            bytes[1],
            bytes[2],
            bytes[3],
            bytes[4],
            bytes[5],
            bytes[6],
            bytes[7],
        );
        assert(wire_u64(read_u64(bytes)) =~= bytes.take(8));
    }
}

fn put_u16(out: &mut Vec<u8>, value: u16)
    ensures
        final(out)@ == old(out)@ + wire_u16(value),
{
    reveal(wire_u16);
    out.push((value % 256) as u8);
    out.push((value / 256) as u8);
    assert(out@ =~= old(out)@ + wire_u16(value));
}

fn put_u32(out: &mut Vec<u8>, value: u32)
    ensures
        final(out)@ == old(out)@ + wire_u32(value),
{
    reveal(wire_u32);
    out.push((value % 256) as u8);
    out.push((value / 0x100 % 256) as u8);
    out.push((value / 0x1_0000 % 256) as u8);
    out.push((value / 0x100_0000) as u8);
    assert(out@ =~= old(out)@ + wire_u32(value));
}

fn put_u64(out: &mut Vec<u8>, value: u64)
    ensures
        final(out)@ == old(out)@ + wire_u64(value),
{
    reveal(wire_u64);
    out.push((value % 256) as u8);
    out.push((value / 0x100 % 256) as u8);
    out.push((value / 0x1_0000 % 256) as u8);
    out.push((value / 0x100_0000 % 256) as u8);
    out.push((value / 0x1_0000_0000 % 256) as u8);
    out.push((value / 0x100_0000_0000 % 256) as u8);
    out.push((value / 0x1_0000_0000_0000 % 256) as u8);
    out.push((value / 0x100_0000_0000_0000) as u8);
    assert(out@ =~= old(out)@ + wire_u64(value));
}

fn get_u16(bytes: &[u8], at: usize) -> (value: u16)
    requires
        at + 2 <= bytes@.len(),
    ensures
        value == read_u16(bytes@.skip(at as int)),
{
    reveal(read_u16);
    bytes[at] as u16 + bytes[at + 1] as u16 * 0x100
}

fn get_u32(bytes: &[u8], at: usize) -> (value: u32)
    requires
        at + 4 <= bytes@.len(),
    ensures
        value == read_u32(bytes@.skip(at as int)),
{
    reveal(read_u32);
    bytes[at] as u32 + bytes[at + 1] as u32 * 0x100 + bytes[at + 2] as u32 * 0x1_0000 + bytes[at
        + 3] as u32 * 0x100_0000
}

fn get_u64(bytes: &[u8], at: usize) -> (value: u64)
    requires
        at + 8 <= bytes@.len(),
    ensures
        value == read_u64(bytes@.skip(at as int)),
{
    reveal(read_u64);
    bytes[at] as u64 + bytes[at + 1] as u64 * 0x100 + bytes[at + 2] as u64 * 0x1_0000 + bytes[at
        + 3] as u64 * 0x100_0000 + bytes[at + 4] as u64 * 0x1_0000_0000 + bytes[at + 5] as u64
        * 0x100_0000_0000 + bytes[at + 6] as u64 * 0x1_0000_0000_0000 + bytes[at + 7] as u64
        * 0x100_0000_0000_0000
}

/// The bytes of a text: the number of its UTF-8 bytes, then those bytes.
#[verifier::opaque]
pub open spec fn wire_text(text: Seq<char>) -> Seq<u8> {
    wire_u64(encode_utf8(text).len() as u64) + encode_utf8(text)
}

/// The bytes of an optional text.
#[verifier::opaque]
pub open spec fn wire_optional_text(text: Option<Seq<char>>) -> Seq<u8> {
    match text {
        None => seq![0u8],
        Some(t) => seq![1u8] + wire_text(t),
    }
}

/// The bytes of an optional number.
#[verifier::opaque]
pub open spec fn wire_optional_u16(value: Option<u16>) -> Seq<u8> {
    match value {
        None => seq![0u8],
        Some(v) => seq![1u8] + wire_u16(v),
    }
}

/// The bytes of a candidate: its fields in order.
pub open spec fn wire_candidate(candidate: IceCandidateView) -> Seq<u8> {
    wire_text(candidate.candidate) + wire_optional_text(candidate.sdp_mid) + wire_optional_u16(
        candidate.sdp_mline_index,
    ) + wire_optional_text(candidate.username_fragment)
}

/// The bytes of a signalling message.
pub open spec fn wire_signal(signal: SignalView) -> Seq<u8> {
    match signal {
        SignalView::Description(sdp) => wire_u32(0) + wire_text(sdp),
        SignalView::Candidate(candidate) => wire_u32(1) + wire_candidate(candidate),
        SignalView::AllCandidatesSent => wire_u32(2),
    }
}

/// The bytes of a role declaration.
pub open spec fn wire_hello(hello: ClientMessage) -> Seq<u8> {
    match hello {
        ClientMessage::StartReceiver => wire_u32(0),
        ClientMessage::StartSender => wire_u32(1),
    }
}

/// Whether the length of a text can be written in 8 bytes.
pub open spec fn text_fits(text: Seq<char>) -> bool {
    encode_utf8(text).len() <= u64::MAX
}

/// Whether the length of an optional text can be written in 8 bytes.
pub open spec fn optional_text_fits(text: Option<Seq<char>>) -> bool {
    match text {
        None => true,
        Some(t) => text_fits(t),
    }
}

/// Whether the lengths of the texts of a signalling message can be written.
/// The texts of every message in memory can.
pub open spec fn signal_fits(signal: SignalView) -> bool {
    match signal {
        SignalView::Description(sdp) => text_fits(sdp),
        SignalView::Candidate(candidate) => text_fits(candidate.candidate) && optional_text_fits(
            candidate.sdp_mid,
        ) && optional_text_fits(candidate.username_fragment),
        SignalView::AllCandidatesSent => true,
    }
}

/// The text that `bytes` begin with and the number of bytes it takes, if they
/// begin with one: 8 bytes of length, and that many bytes of valid UTF-8.
#[verifier::opaque]
pub open spec fn parse_text(bytes: Seq<u8>) -> Option<(Seq<char>, int)> {
    if bytes.len() < 8 {
        None
    } else if bytes.len() - 8 < read_u64(bytes) {
        None
    } else if !valid_utf8(bytes.subrange(8, 8 + read_u64(bytes))) {
        None
    } else {
        Some((decode_utf8(bytes.subrange(8, 8 + read_u64(bytes))), 8 + read_u64(bytes)))
    }
}

/// The optional text that `bytes` begin with and the number of bytes it takes.
#[verifier::opaque]
pub open spec fn parse_optional_text(bytes: Seq<u8>) -> Option<(Option<Seq<char>>, int)> {
    if bytes.len() < 1 {
        None
    } else if bytes[0] == 0 {
        Some((None, 1))
    } else if bytes[0] == 1 {
        match parse_text(bytes.skip(1)) {
            Some((text, n)) => Some((Some(text), 1 + n)),
            None => None,
        }
    } else {
        None
    }
}

/// The optional number that `bytes` begin with and the number of bytes it takes.
#[verifier::opaque]
pub open spec fn parse_optional_u16(bytes: Seq<u8>) -> Option<(Option<u16>, int)> {
    if bytes.len() < 1 {
        None
    } else if bytes[0] == 0 {
        Some((None, 1))
    } else if bytes[0] == 1 && bytes.len() >= 3 {
        Some((Some(read_u16(bytes.skip(1))), 3))
    } else {
        None
    }
}

/// The candidate that `bytes` begin with and the number of bytes it takes.
pub open spec fn parse_candidate(bytes: Seq<u8>) -> Option<(IceCandidateView, int)> {
    match parse_text(bytes) {
        None => None,
        Some((candidate, n1)) => match parse_optional_text(bytes.skip(n1)) {
            None => None,
            Some((sdp_mid, n2)) => match parse_optional_u16(bytes.skip(n1 + n2)) {
                None => None,
                Some((sdp_mline_index, n3)) => match parse_optional_text(
                    bytes.skip(n1 + n2 + n3),
                ) {
                    None => None,
                    Some((username_fragment, n4)) => Some(
                        (
                            IceCandidateView {
                                candidate,
                                sdp_mid,
                                sdp_mline_index,
                                username_fragment,
                            },
                            n1 + n2 + n3 + n4,
                        ),
                    ),
                },
            },
        },
    }
}

/// The signalling message that a frame of `bytes` says, if it says one.
pub open spec fn parse_signal(bytes: Seq<u8>) -> Option<SignalView> {
    if bytes.len() < 4 {
        None
    } else if read_u32(bytes) == 0 {
        match parse_text(bytes.skip(4)) {
            Some((sdp, _)) => Some(SignalView::Description(sdp)),
            None => None,
        }
    } else if read_u32(bytes) == 1 {
        match parse_candidate(bytes.skip(4)) {
            Some((candidate, _)) => Some(SignalView::Candidate(candidate)),
            None => None,
        }
    } else if read_u32(bytes) == 2 {
        Some(SignalView::AllCandidatesSent)
    } else {
        None
    }
}

/// The role declaration that a frame of `bytes` says, if it says one.
pub open spec fn parse_hello(bytes: Seq<u8>) -> Option<ClientMessage> {
    if bytes.len() < 4 {
        None
    } else if read_u32(bytes) == 0 {
        Some(ClientMessage::StartReceiver)
    } else if read_u32(bytes) == 1 {
        Some(ClientMessage::StartSender)
    } else {
        None
    }
}

/// A text that was written is read back, whatever follows it.
pub proof fn lemma_text_round_trip(text: Seq<char>, rest: Seq<u8>)
    requires
        text_fits(text),
    ensures
        parse_text(wire_text(text) + rest) == Some((text, wire_text(text).len() as int)),
        wire_text(text).len() == 8 + encode_utf8(text).len(),
{
    reveal(wire_text);
    reveal(parse_text);
    let body = encode_utf8(text);
    let bytes = wire_text(text) + rest;
    lemma_numbers_round_trip(0, 0, body.len() as u64, body + rest);
    assert(bytes =~= wire_u64(body.len() as u64) + (body + rest));
    assert(bytes.subrange(8, 8 + body.len() as int) =~= body);
    encode_utf8_valid_utf8(text);
    encode_utf8_decode_utf8(text);
}

/// An optional text that was written is read back, whatever follows it.
pub proof fn lemma_optional_text_round_trip(text: Option<Seq<char>>, rest: Seq<u8>)
    requires
        optional_text_fits(text),
    ensures
        parse_optional_text(wire_optional_text(text) + rest) == Some(
            (text, wire_optional_text(text).len() as int),
        ),
{
    reveal(wire_optional_text);
    reveal(parse_optional_text);
    match text {
        None => {},
        Some(t) => {
            lemma_text_round_trip(t, rest);
            assert((wire_optional_text(text) + rest).skip(1) =~= wire_text(t) + rest);
        },
    }
}

/// An optional number that was written is read back, whatever follows it.
pub proof fn lemma_optional_u16_round_trip(value: Option<u16>, rest: Seq<u8>)
    ensures
        parse_optional_u16(wire_optional_u16(value) + rest) == Some(
            (value, wire_optional_u16(value).len() as int),
        ),
{
    reveal(wire_optional_u16);
    reveal(parse_optional_u16);
    match value {
        None => {},
        Some(v) => {
            lemma_numbers_round_trip(v, 0, 0, rest);
            assert((wire_optional_u16(value) + rest).skip(1) =~= wire_u16(v) + rest);
        },
    }
}

/// A candidate that was written is read back, whatever follows it.
pub proof fn lemma_candidate_round_trip(candidate: IceCandidateView, rest: Seq<u8>)
    requires
        signal_fits(SignalView::Candidate(candidate)),
    ensures
        parse_candidate(wire_candidate(candidate) + rest) == Some(
            (candidate, wire_candidate(candidate).len() as int),
        ),
{
    let w1 = wire_text(candidate.candidate);
    let w2 = wire_optional_text(candidate.sdp_mid);
    let w3 = wire_optional_u16(candidate.sdp_mline_index);
    let w4 = wire_optional_text(candidate.username_fragment);
    let bytes = wire_candidate(candidate) + rest;
    let n1 = w1.len() as int;
    let n2 = w2.len() as int;
    let n3 = w3.len() as int;
    let n4 = w4.len() as int;
    assert(parse_text(bytes) == Some((candidate.candidate, n1))) by {
        lemma_text_round_trip(candidate.candidate, w2 + w3 + w4 + rest);
        assert(bytes =~= w1 + (w2 + w3 + w4 + rest));
    }
    assert(parse_optional_text(bytes.skip(n1)) == Some((candidate.sdp_mid, n2))) by {
        lemma_optional_text_round_trip(candidate.sdp_mid, w3 + w4 + rest);
        assert(bytes.skip(n1) =~= w2 + (w3 + w4 + rest));
    }
    assert(parse_optional_u16(bytes.skip(n1 + n2)) == Some((candidate.sdp_mline_index, n3))) by {
        lemma_optional_u16_round_trip(candidate.sdp_mline_index, w4 + rest);
        assert(bytes.skip(n1 + n2) =~= w3 + (w4 + rest));
    }
    assert(parse_optional_text(bytes.skip(n1 + n2 + n3)) == Some((candidate.username_fragment, n4)))
        by {
        lemma_optional_text_round_trip(candidate.username_fragment, rest);
        assert(bytes.skip(n1 + n2 + n3) =~= w4 + rest);
    }
}

/// Writing a signalling message and reading the frame gives the message
/// back, whatever follows it in the frame.
pub proof fn law_signal_round_trip(signal: SignalView, rest: Seq<u8>)
    requires
        signal_fits(signal),
    ensures
        parse_signal(wire_signal(signal) + rest) == Some(signal),
{
    let bytes = wire_signal(signal) + rest;
    match signal {
        SignalView::Description(sdp) => {
            lemma_numbers_round_trip(0, 0, 0, wire_text(sdp) + rest);
            assert(bytes =~= wire_u32(0) + (wire_text(sdp) + rest));
            assert(bytes.skip(4) =~= wire_text(sdp) + rest);
            lemma_text_round_trip(sdp, rest);
        },
        SignalView::Candidate(candidate) => {
            lemma_numbers_round_trip(0, 1, 0, wire_candidate(candidate) + rest);
            assert(bytes =~= wire_u32(1) + (wire_candidate(candidate) + rest));
            assert(bytes.skip(4) =~= wire_candidate(candidate) + rest);
            lemma_candidate_round_trip(candidate, rest);
        },
        SignalView::AllCandidatesSent => {
            lemma_numbers_round_trip(0, 2, 0, rest);
        },
    }
}

/// Writing a role declaration and reading the frame gives the declaration
/// back, whatever follows it in the frame.
pub proof fn law_hello_round_trip(hello: ClientMessage, rest: Seq<u8>)
    ensures
        parse_hello(wire_hello(hello) + rest) == Some(hello),
{
    lemma_numbers_round_trip(0, 0, 0, rest);
    lemma_numbers_round_trip(0, 1, 0, rest);
}

/// A text is read from its own bytes only: what was read, written again, is
/// the beginning of what it was read from.
pub proof fn lemma_text_canonical(bytes: Seq<u8>)
    ensures
        parse_text(bytes) matches Some((text, n)) ==> {
            &&& text_fits(text)
            &&& wire_text(text).len() == n
            &&& n <= bytes.len()
            &&& wire_text(text) == bytes.take(n)
        },
{
    reveal(wire_text);
    reveal(parse_text);
    if parse_text(bytes) is Some {
        let n = read_u64(bytes);
        let body = bytes.subrange(8, 8 + n);
        decode_utf8_encode_utf8(body);
        lemma_bytes_round_trip(bytes);
        assert(bytes.take(8) + body =~= bytes.take(8 + n));
    }
}

proof fn lemma_optional_text_canonical(bytes: Seq<u8>)
    ensures
        parse_optional_text(bytes) matches Some((text, n)) ==> {
            &&& optional_text_fits(text)
            &&& wire_optional_text(text).len() == n
            &&& n <= bytes.len()
            &&& wire_optional_text(text) == bytes.take(n)
        },
{
    reveal(wire_optional_text);
    reveal(parse_optional_text);
    if parse_optional_text(bytes) is Some {
        if bytes[0] == 0 {
            assert(seq![0u8] =~= bytes.take(1));
        } else {
            let rest = bytes.skip(1);
            lemma_text_canonical(rest);
            let (_, n) = parse_text(rest).unwrap();
            assert(seq![1u8] + rest.take(n) =~= bytes.take(1 + n));
        }
    }
}

proof fn lemma_optional_u16_canonical(bytes: Seq<u8>)
    ensures
        parse_optional_u16(bytes) matches Some((value, n)) ==> {
            &&& wire_optional_u16(value).len() == n
            &&& n <= bytes.len()
            &&& wire_optional_u16(value) == bytes.take(n)
        },
{
    reveal(wire_optional_u16);
    reveal(parse_optional_u16);
    if parse_optional_u16(bytes) is Some {
        if bytes[0] == 0 {
            assert(seq![0u8] =~= bytes.take(1));
        } else {
            let rest = bytes.skip(1);
            lemma_bytes_round_trip(rest);
            lemma_numbers_round_trip(read_u16(rest), 0, 0, Seq::empty());
            assert(seq![1u8] + rest.take(2) =~= bytes.take(3));
        }
    }
}

proof fn lemma_candidate_canonical(bytes: Seq<u8>)
    ensures
        parse_candidate(bytes) matches Some((candidate, n)) ==> {
            &&& signal_fits(SignalView::Candidate(candidate))
            &&& wire_candidate(candidate).len() == n
            &&& n <= bytes.len()
            &&& wire_candidate(candidate) == bytes.take(n)
        },
{
    if parse_candidate(bytes) is Some {
        let (_, n1) = parse_text(bytes).unwrap();
        lemma_text_canonical(bytes);
        let b2 = bytes.skip(n1);
        let (_, n2) = parse_optional_text(b2).unwrap();
        lemma_optional_text_canonical(b2);
        let b3 = bytes.skip(n1 + n2);
        let (_, n3) = parse_optional_u16(b3).unwrap();
        lemma_optional_u16_canonical(b3);
        let b4 = bytes.skip(n1 + n2 + n3);
        let (_, n4) = parse_optional_text(b4).unwrap();
        lemma_optional_text_canonical(b4);
        assert(bytes.take(n1) + b2.take(n2) + b3.take(n3) + b4.take(n4) =~= bytes.take(
            n1 + n2 + n3 + n4,
        ));
    }
}

/// A frame says a signalling message in one way only: the message that a
/// frame says, written again, is the beginning of the frame.
pub proof fn law_signal_is_canonical(bytes: Seq<u8>)
    ensures
        parse_signal(bytes) matches Some(signal) ==> {
            &&& signal_fits(signal)
            &&& wire_signal(signal).len() <= bytes.len()
            &&& wire_signal(signal) == bytes.take(wire_signal(signal).len() as int)
        },
{
    if parse_signal(bytes) is Some {
        lemma_bytes_round_trip(bytes);
        lemma_numbers_round_trip(0, read_u32(bytes), 0, Seq::empty());
        let rest = bytes.skip(4);
        if read_u32(bytes) == 0 {
            lemma_text_canonical(rest);
            let (_, n) = parse_text(rest).unwrap();
            assert(bytes.take(4) + rest.take(n) =~= bytes.take(4 + n));
        } else if read_u32(bytes) == 1 {
            lemma_candidate_canonical(rest);
            let (_, n) = parse_candidate(rest).unwrap();
            assert(bytes.take(4) + rest.take(n) =~= bytes.take(4 + n));
        } else {
            assert(bytes.take(4) =~= bytes.take(wire_u32(2).len() as int));
        }
    }
}

/// A frame says a role declaration in one way only.
pub proof fn law_hello_is_canonical(bytes: Seq<u8>)
    ensures
        parse_hello(bytes) matches Some(hello) ==> wire_hello(hello) == bytes.take(4),
{
    if parse_hello(bytes) is Some {
        lemma_bytes_round_trip(bytes);
    }
}

/// Calls `String::from_utf8`, which accepts exactly the byte vectors that are
/// valid UTF-8 and then gives the text that has these bytes.
#[verifier::external_body]
fn string_from_utf8(bytes: Vec<u8>) -> (text: Option<String>)
    ensures
        text is Some <==> valid_utf8(bytes@),
        text matches Some(t) ==> encode_utf8(t@) == bytes@,
{
    String::from_utf8(bytes).ok()
}

fn put_text(out: &mut Vec<u8>, text: &str)
    ensures
        final(out)@ == old(out)@ + wire_text(text@),
        text_fits(text@),
{
    reveal(wire_text);
    let bytes = text.as_bytes();
    let n = bytes.len();
    put_u64(out, n as u64);
    let ghost head = out@;
    let mut i: usize = 0;
    while i < n
        invariant
            0 <= i <= n,
            n == bytes@.len(),
            out@ == head + bytes@.take(i as int),
        decreases n - i,
    {
        out.push(bytes[i]);
        i = i + 1;
        assert(out@ =~= head + bytes@.take(i as int));
    }
    assert(bytes@.take(n as int) =~= bytes@);
    assert(out@ =~= old(out)@ + wire_text(text@));
}

fn put_optional_text(out: &mut Vec<u8>, text: &Option<String>)
    ensures
        final(out)@ == old(out)@ + wire_optional_text(crate::protocol::text_view(*text)),
        optional_text_fits(crate::protocol::text_view(*text)),
{
    reveal(wire_optional_text);
    match text {
        None => {
            out.push(0);
            assert(out@ =~= old(out)@ + seq![0u8]);
        },
        Some(t) => {
            out.push(1);
            put_text(out, t.as_str());
            assert(out@ =~= old(out)@ + (seq![1u8] + wire_text(t@)));
        },
    }
}

fn put_optional_u16(out: &mut Vec<u8>, value: Option<u16>)
    ensures
        final(out)@ == old(out)@ + wire_optional_u16(value),
{
    reveal(wire_optional_u16);
    match value {
        None => {
            out.push(0);
            assert(out@ =~= old(out)@ + seq![0u8]);
        },
        Some(v) => {
            out.push(1);
            put_u16(out, v);
            assert(out@ =~= old(out)@ + (seq![1u8] + wire_u16(v)));
        },
    }
}

fn put_description(out: &mut Vec<u8>, sdp: &SessionDescription)
    ensures
        final(out)@ == old(out)@ + wire_signal(SignalView::Description(sdp@)),
        signal_fits(SignalView::Description(sdp@)),
{
    put_u32(out, 0);
    put_text(out, sdp.0.as_str());
    assert(out@ =~= old(out)@ + (wire_u32(0) + wire_text(sdp@)));
}

fn put_candidate(out: &mut Vec<u8>, candidate: &IceCandidate)
    ensures
        final(out)@ == old(out)@ + wire_signal(SignalView::Candidate(candidate@)),
        signal_fits(SignalView::Candidate(candidate@)),
{
    put_u32(out, 1);
    put_text(out, candidate.candidate.as_str());
    put_optional_text(out, &candidate.sdp_mid);
    put_optional_u16(out, candidate.sdp_mline_index);
    put_optional_text(out, &candidate.username_fragment);
    assert(out@ =~= old(out)@ + (wire_u32(1) + wire_candidate(candidate@)));
}

fn put_all_candidates_sent(out: &mut Vec<u8>)
    ensures
        final(out)@ == old(out)@ + wire_signal(SignalView::AllCandidatesSent),
{
    put_u32(out, 2);
}

fn take_text(bytes: &[u8], at: usize) -> (taken: Option<(String, usize)>)
    requires
        at <= bytes@.len(),
    ensures
        match taken {
            Some((text, end)) => at <= end <= bytes@.len() && parse_text(bytes@.skip(at as int))
                == Some((text@, end - at)),
            None => parse_text(bytes@.skip(at as int)) is None,
        },
{
    reveal(parse_text);
    let ghost tail = bytes@.skip(at as int);
    if bytes.len() - at < 8 {
        return None;
    }
    let n = get_u64(bytes, at);
    let left = bytes.len() - at - 8;
    if (left as u64) < n {
        return None;
    }
    let n = n as usize;
    let body = slice_subrange(bytes, at + 8, at + 8 + n);
    assert(body@ =~= tail.subrange(8, 8 + n));
    match string_from_utf8(slice_to_vec(body)) {
        Some(text) => {
            proof {
                encode_utf8_decode_utf8(text@);
            }
            Some((text, at + 8 + n))
        },
        None => None,
    }
}

fn take_optional_text(bytes: &[u8], at: usize) -> (taken: Option<(Option<String>, usize)>)
    requires
        at <= bytes@.len(),
    ensures
        match taken {
            Some((text, end)) => at <= end <= bytes@.len() && parse_optional_text(
                bytes@.skip(at as int),
            ) == Some((crate::protocol::text_view(text), end - at)),
            None => parse_optional_text(bytes@.skip(at as int)) is None,
        },
{
    reveal(parse_optional_text);
    let ghost tail = bytes@.skip(at as int);
    if bytes.len() - at < 1 {
        return None;
    }
    let tag = bytes[at];
    assert(tail[0] == tag);
    assert(tail.skip(1) =~= bytes@.skip(at + 1));
    if tag == 0 {
        Some((None, at + 1))
    } else if tag == 1 {
        match take_text(bytes, at + 1) {
            Some((text, end)) => Some((Some(text), end)),
            None => None,
        }
    } else {
        None
    }
}

fn take_optional_u16(bytes: &[u8], at: usize) -> (taken: Option<(Option<u16>, usize)>)
    requires
        at <= bytes@.len(),
    ensures
        match taken {
            Some((value, end)) => at <= end <= bytes@.len() && parse_optional_u16(
                bytes@.skip(at as int),
            ) == Some((value, end - at)),
            None => parse_optional_u16(bytes@.skip(at as int)) is None,
        },
{
    reveal(parse_optional_u16);
    let ghost tail = bytes@.skip(at as int);
    if bytes.len() - at < 1 {
        return None;
    }
    let tag = bytes[at];
    assert(tail[0] == tag);
    assert(tail.skip(1) =~= bytes@.skip(at + 1));
    if tag == 0 {
        Some((None, at + 1))
    } else if tag == 1 && bytes.len() - at >= 3 {
        Some((Some(get_u16(bytes, at + 1)), at + 3))
    } else {
        None
    }
}

fn take_candidate(bytes: &[u8], at: usize) -> (taken: Option<IceCandidate>)
    requires
        at <= bytes@.len(),
    ensures
        match taken {
            Some(candidate) => parse_candidate(bytes@.skip(at as int)) matches Some((view, _))
                && view == candidate@,
            None => parse_candidate(bytes@.skip(at as int)) is None,
        },
{
    let ghost tail = bytes@.skip(at as int);
    let (candidate, end1) = match take_text(bytes, at) {
        Some(taken) => taken,
        None => {
            return None;
        },
    };
    assert(tail.skip(end1 - at) =~= bytes@.skip(end1 as int));
    let (sdp_mid, end2) = match take_optional_text(bytes, end1) {
        Some(taken) => taken,
        None => {
            return None;
        },
    };
    assert(tail.skip((end1 - at) + (end2 - end1)) =~= bytes@.skip(end2 as int));
    let (sdp_mline_index, end3) = match take_optional_u16(bytes, end2) {
        Some(taken) => taken,
        None => {
            return None;
        },
    };
    assert(tail.skip((end1 - at) + (end2 - end1) + (end3 - end2)) =~= bytes@.skip(end3 as int));
    let (username_fragment, _) = match take_optional_text(bytes, end3) {
        Some(taken) => taken,
        None => {
            return None;
        },
    };
    Some(IceCandidate { candidate, sdp_mid, sdp_mline_index, username_fragment })
}

/// A signalling message of any of the four vocabularies.
enum Signal {
    Description(SessionDescription),
    Candidate(IceCandidate),
    AllCandidatesSent,
}

impl View for Signal {
    type V = SignalView;

    closed spec fn view(&self) -> SignalView {
        match self {
            Signal::Description(sdp) => SignalView::Description(sdp@),
            Signal::Candidate(candidate) => SignalView::Candidate(candidate@),
            Signal::AllCandidatesSent => SignalView::AllCandidatesSent,
        }
    }
}

fn take_signal(bytes: &[u8]) -> (taken: Option<Signal>)
    ensures
        match taken {
            Some(signal) => parse_signal(bytes@) == Some(signal@),
            None => parse_signal(bytes@) is None,
        },
{
    if bytes.len() < 4 {
        return None;
    }
    let tag = get_u32(bytes, 0);
    assert(bytes@.skip(0) =~= bytes@);
    if tag == 0 {
        match take_text(bytes, 4) {
            Some((sdp, _)) => Some(Signal::Description(SessionDescription(sdp))),
            None => None,
        }
    } else if tag == 1 {
        match take_candidate(bytes, 4) {
            Some(candidate) => Some(Signal::Candidate(candidate)),
            None => None,
        }
    } else if tag == 2 {
        Some(Signal::AllCandidatesSent)
    } else {
        None
    }
}

/// A message that can travel in a frame.
pub trait WireMessage: View + Sized {
    /// The bytes of the frame that says `message`.
    spec fn wire(message: Self::V) -> Seq<u8>;

    /// The message that a frame of `bytes` says, if it says one of this vocabulary.
    spec fn parse(bytes: Seq<u8>) -> Option<Self::V>;

    /// Whether the lengths of the texts of `message` can be written. Those of
    /// every message in memory can.
    spec fn fits(message: Self::V) -> bool;

    /// Writes the message into a new frame.
    fn encode(&self) -> (bytes: Vec<u8>)
        ensures
            bytes@ == Self::wire(self@),
            Self::fits(self@),
    ;

    /// Reads a frame. Succeeds exactly on the frames that begin with a
    /// message of this vocabulary; what follows the message is not read.
    fn decode(bytes: &[u8]) -> (message: Option<Self>)
        ensures
            match message {
                Some(m) => Self::parse(bytes@) == Some(m@),
                None => Self::parse(bytes@) is None,
            },
    ;

    /// Writing a message and reading the frame gives the message back,
    /// whatever follows it in the frame.
    proof fn law_round_trip(message: Self::V, rest: Seq<u8>)
        requires
            Self::fits(message),
        ensures
            Self::parse(Self::wire(message) + rest) == Some(message),
    ;

    /// A frame says a message in one way only: the message that a frame says,
    /// written again, is the beginning of the frame.
    proof fn law_canonical(bytes: Seq<u8>)
        ensures
            Self::parse(bytes) matches Some(message) ==> {
                &&& Self::fits(message)
                &&& Self::wire(message).len() <= bytes.len()
                &&& Self::wire(message) == bytes.take(Self::wire(message).len() as int)
            },
    ;
}

impl View for ClientMessage {
    type V = ClientMessage;

    open spec fn view(&self) -> ClientMessage {
        *self
    }
}

impl WireMessage for ClientMessage {
    open spec fn wire(message: ClientMessage) -> Seq<u8> {
        wire_hello(message)
    }

    open spec fn parse(bytes: Seq<u8>) -> Option<ClientMessage> {
        parse_hello(bytes)
    }

    open spec fn fits(message: ClientMessage) -> bool {
        true
    }

    fn encode(&self) -> (bytes: Vec<u8>) {
        let mut bytes: Vec<u8> = Vec::new();
        match self {
            ClientMessage::StartReceiver => put_u32(&mut bytes, 0),
            ClientMessage::StartSender => put_u32(&mut bytes, 1),
        }
        assert(bytes@ =~= wire_hello(*self));
        bytes
    }

    fn decode(bytes: &[u8]) -> (message: Option<ClientMessage>) {
        if bytes.len() < 4 {
            return None;
        }
        let tag = get_u32(bytes, 0);
        assert(bytes@.skip(0) =~= bytes@);
        if tag == 0 {
            Some(ClientMessage::StartReceiver)
        } else if tag == 1 {
            Some(ClientMessage::StartSender)
        } else {
            None
        }
    }

    proof fn law_round_trip(message: ClientMessage, rest: Seq<u8>) {
        law_hello_round_trip(message, rest);
    }

    proof fn law_canonical(bytes: Seq<u8>) {
        law_hello_is_canonical(bytes);
        lemma_numbers_round_trip(0, 0, 0, Seq::empty());
        lemma_numbers_round_trip(0, 1, 0, Seq::empty());
    }
}

impl WireMessage for ClientSenderMessage {
    open spec fn wire(message: SignalView) -> Seq<u8> {
        wire_signal(message)
    }

    open spec fn parse(bytes: Seq<u8>) -> Option<SignalView> {
        parse_signal(bytes)
    }

    open spec fn fits(message: SignalView) -> bool {
        signal_fits(message)
    }

    fn encode(&self) -> (bytes: Vec<u8>) {
        let mut bytes: Vec<u8> = Vec::new();
        match self {
            ClientSenderMessage::Offer(sdp) => put_description(&mut bytes, sdp),
            ClientSenderMessage::IceCandidate(candidate) => put_candidate(&mut bytes, candidate),
            ClientSenderMessage::AllIceCandidatesSent => put_all_candidates_sent(&mut bytes),
        }
        assert(bytes@ =~= wire_signal(self@));
        bytes
    }

    fn decode(bytes: &[u8]) -> (message: Option<ClientSenderMessage>) {
        match take_signal(bytes) {
            Some(Signal::Description(sdp)) => Some(ClientSenderMessage::Offer(sdp)),
            Some(Signal::Candidate(candidate)) => Some(ClientSenderMessage::IceCandidate(candidate)),
            Some(Signal::AllCandidatesSent) => Some(ClientSenderMessage::AllIceCandidatesSent),
            None => None,
        }
    }

    proof fn law_round_trip(message: SignalView, rest: Seq<u8>) {
        law_signal_round_trip(message, rest);
    }

    proof fn law_canonical(bytes: Seq<u8>) {
        law_signal_is_canonical(bytes);
    }
}

impl WireMessage for ClientReceiverMessage {
    open spec fn wire(message: SignalView) -> Seq<u8> {
        wire_signal(message)
    }

    open spec fn parse(bytes: Seq<u8>) -> Option<SignalView> {
        parse_signal(bytes)
    }

    open spec fn fits(message: SignalView) -> bool {
        signal_fits(message)
    }

    fn encode(&self) -> (bytes: Vec<u8>) {
        let mut bytes: Vec<u8> = Vec::new();
        match self {
            ClientReceiverMessage::Answer(sdp) => put_description(&mut bytes, sdp),
            ClientReceiverMessage::IceCandidate(candidate) => put_candidate(&mut bytes, candidate),
            ClientReceiverMessage::AllIceCandidatesSent => put_all_candidates_sent(&mut bytes),
        }
        assert(bytes@ =~= wire_signal(self@));
        bytes
    }

    fn decode(bytes: &[u8]) -> (message: Option<ClientReceiverMessage>) {
        match take_signal(bytes) {
            Some(Signal::Description(sdp)) => Some(ClientReceiverMessage::Answer(sdp)),
            Some(Signal::Candidate(candidate)) => Some(
                ClientReceiverMessage::IceCandidate(candidate),
            ),
            Some(Signal::AllCandidatesSent) => Some(ClientReceiverMessage::AllIceCandidatesSent),
            None => None,
        }
    }

    proof fn law_round_trip(message: SignalView, rest: Seq<u8>) {
        law_signal_round_trip(message, rest);
    }

    proof fn law_canonical(bytes: Seq<u8>) {
        law_signal_is_canonical(bytes);
    }
}

impl WireMessage for ServerReceiverMessage {
    open spec fn wire(message: SignalView) -> Seq<u8> {
        wire_signal(message)
    }

    open spec fn parse(bytes: Seq<u8>) -> Option<SignalView> {
        parse_signal(bytes)
    }

    open spec fn fits(message: SignalView) -> bool {
        signal_fits(message)
    }

    fn encode(&self) -> (bytes: Vec<u8>) {
        let mut bytes: Vec<u8> = Vec::new();
        match self {
            ServerReceiverMessage::Answer(sdp) => put_description(&mut bytes, sdp),
            ServerReceiverMessage::IceCandidate(candidate) => put_candidate(&mut bytes, candidate),
            ServerReceiverMessage::AllIceCandidatesSent => put_all_candidates_sent(&mut bytes),
        }
        assert(bytes@ =~= wire_signal(self@));
        bytes
    }

    fn decode(bytes: &[u8]) -> (message: Option<ServerReceiverMessage>) {
        match take_signal(bytes) {
            Some(Signal::Description(sdp)) => Some(ServerReceiverMessage::Answer(sdp)),
            Some(Signal::Candidate(candidate)) => Some(
                ServerReceiverMessage::IceCandidate(candidate),
            ),
            Some(Signal::AllCandidatesSent) => Some(ServerReceiverMessage::AllIceCandidatesSent),
            None => None,
        }
    }

    proof fn law_round_trip(message: SignalView, rest: Seq<u8>) {
        law_signal_round_trip(message, rest);
    }

    proof fn law_canonical(bytes: Seq<u8>) {
        law_signal_is_canonical(bytes);
    }
}

impl WireMessage for ServerSenderMessage {
    open spec fn wire(message: SignalView) -> Seq<u8> {
        wire_signal(message)
    }

    open spec fn parse(bytes: Seq<u8>) -> Option<SignalView> {
        parse_signal(bytes)
    }

    open spec fn fits(message: SignalView) -> bool {
        signal_fits(message)
    }

    fn encode(&self) -> (bytes: Vec<u8>) {
        let mut bytes: Vec<u8> = Vec::new();
        match self {
            ServerSenderMessage::Offer(sdp) => put_description(&mut bytes, sdp),
            ServerSenderMessage::IceCandidate(candidate) => put_candidate(&mut bytes, candidate),
            ServerSenderMessage::AllIceCandidatesSent => put_all_candidates_sent(&mut bytes),
        }
        assert(bytes@ =~= wire_signal(self@));
        bytes
    }

    fn decode(bytes: &[u8]) -> (message: Option<ServerSenderMessage>) {
        match take_signal(bytes) {
            Some(Signal::Description(sdp)) => Some(ServerSenderMessage::Offer(sdp)),
            Some(Signal::Candidate(candidate)) => Some(ServerSenderMessage::IceCandidate(candidate)),
            Some(Signal::AllCandidatesSent) => Some(ServerSenderMessage::AllIceCandidatesSent),
            None => None,
        }
    }

    proof fn law_round_trip(message: SignalView, rest: Seq<u8>) {
        law_signal_round_trip(message, rest);
    }

    proof fn law_canonical(bytes: Seq<u8>) {
        law_signal_is_canonical(bytes);
    }
}

} // verus!
