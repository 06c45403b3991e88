//! The payload of a wire message: a frame as bytes.
//!
//! Numbers are written with their lowest byte first, `u32` in four bytes and
//! `u64` in eight; a signed number is written as the unsigned number with the
//! same bits. A truth value is one byte, `0` or `1`. A byte string is its
//! length as `u64` followed by the bytes, a text is the byte string of its
//! UTF-8 encoding, a list is the number of its items as `u64` followed by the
//! items. An optional value is the byte `0`, or the byte `1` followed by the
//! value. A value of an enumeration is the index of its variant as `u32`
//! followed by the variant's fields.
//!
//! `ser_..(value, tail)` is the bytes of a value followed by `tail`, and
//! `parse_..(bytes)` takes a value off the front of `bytes`.

use vstd::prelude::*;
use vstd::utf8::decode_utf8;
use vstd::utf8::encode_utf8;
use vstd::utf8::valid_utf8;
use crate::config::ScreenInfo;
use crate::frame::ClipboardEvent;
use crate::frame::ClipboardEventView;
use crate::frame::FileManifest;
use crate::frame::FileManifestView;
use crate::frame::FileMeta;
use crate::frame::FileMetaView;
use crate::frame::FileTransferRequest;
use crate::frame::FileTransferRequestView;
use crate::frame::FileTransferResponse;
use crate::frame::Frame;
use crate::frame::FrameView;
use crate::frame::Handshake;
use crate::frame::HandshakeView;
use crate::frame::Heartbeat;
use crate::frame::InputEvent;
use crate::frame::MouseButton;
use crate::frame::ScreenSide;
use crate::frame::TransferPurpose;

verus! {

pub open spec fn ser_u8(v: u8, tail: Seq<u8>) -> Seq<u8> {
    seq![v] + tail
}

pub open spec fn parse_u8(s: Seq<u8>) -> Option<(u8, Seq<u8>)> {
    if s.len() < 1 {
        None
    } else {
        Some((s[0], s.skip(1)))
    }
}

pub open spec fn ser_bool(v: bool, tail: Seq<u8>) -> Seq<u8> {
    ser_u8(
        if v {
            1
        } else {
            0
        },
        tail,
    )
}

pub open spec fn parse_bool(s: Seq<u8>) -> Option<(bool, Seq<u8>)> {
    match parse_u8(s) {
        Some((b, rest)) => if b == 0 {
            Some((false, rest))
        } else if b == 1 {
            Some((true, rest))
        } else {
            None
        },
        None => None,
    }
}

pub open spec fn ser_u32(v: u32, tail: Seq<u8>) -> Seq<u8> {
    seq![
        (v % 256) as u8,
        (v / 256 % 256) as u8,
        (v / 65_536 % 256) as u8,
        (v / 16_777_216 % 256) as u8,
    ] + tail
}

pub open spec fn parse_u32(s: Seq<u8>) -> Option<(u32, Seq<u8>)> {
    if s.len() < 4 {
        None
    } else {
        Some(((s[0] + s[1] * 256 + s[2] * 65_536 + s[3] * 16_777_216) as u32, s.skip(4)))
    }
}

pub open spec fn ser_u64(v: u64, tail: Seq<u8>) -> Seq<u8> {
    ser_u32((v % 0x1_0000_0000) as u32, ser_u32((v / 0x1_0000_0000) as u32, tail))
}

pub open spec fn parse_u64(s: Seq<u8>) -> Option<(u64, Seq<u8>)> {
    match parse_u32(s) {
        Some((low, rest)) => match parse_u32(rest) {
            Some((high, rest)) => Some(((low + high * 0x1_0000_0000) as u64, rest)),
            None => None,
        },
        None => None,
    }
}

/// The unsigned number with the bits of `v`.
pub open spec fn bits_of(v: i32) -> u32 {
    if v < 0 {
        (v + 0x1_0000_0000) as u32
    } else {
        v as u32
    }
}

/// The signed number with the bits of `u`.
pub open spec fn signed_of(u: u32) -> i32 {
    if u >= 0x8000_0000 {
        (u - 0x1_0000_0000) as i32
    } else {
        u as i32
    }
}

pub open spec fn ser_i32(v: i32, tail: Seq<u8>) -> Seq<u8> {
    ser_u32(bits_of(v), tail)
}

pub open spec fn parse_i32(s: Seq<u8>) -> Option<(i32, Seq<u8>)> {
    match parse_u32(s) {
        Some((u, rest)) => Some((signed_of(u), rest)),
        None => None,
    }
}

pub open spec fn ser_bytes(b: Seq<u8>, tail: Seq<u8>) -> Seq<u8> {
    ser_u64(b.len() as u64, b + tail)
}

pub open spec fn parse_bytes(s: Seq<u8>) -> Option<(Seq<u8>, Seq<u8>)> {
    match parse_u64(s) {
        Some((len, rest)) => if rest.len() < len {
            None
        } else {
            Some((rest.take(len as int), rest.skip(len as int)))
        },
        None => None,
    }
}

pub open spec fn ser_string(text: Seq<char>, tail: Seq<u8>) -> Seq<u8> {
    ser_bytes(encode_utf8(text), tail)
}

pub open spec fn parse_string(s: Seq<u8>) -> Option<(Seq<char>, Seq<u8>)> {
    match parse_bytes(s) {
        Some((b, rest)) => if valid_utf8(b) {
            Some((decode_utf8(b), rest))
        } else {
            None
        },
        None => None,
    }
}

pub(crate) proof fn lemma_u8_round_trip(v: u8, tail: Seq<u8>)
    ensures
        parse_u8(ser_u8(v, tail)) == Some((v, tail)),
{
    assert(ser_u8(v, tail).skip(1) =~= tail);
}

pub(crate) proof fn lemma_bool_round_trip(v: bool, tail: Seq<u8>)
    ensures
        parse_bool(ser_bool(v, tail)) == Some((v, tail)),
{
    lemma_u8_round_trip(
        if v {
            1
        } else {
            0
        },
        tail,
    );
}

pub(crate) proof fn lemma_u32_round_trip(v: u32, tail: Seq<u8>)
    ensures
        parse_u32(ser_u32(v, tail)) == Some((v, tail)),
{
    assert(ser_u32(v, tail).skip(4) =~= tail);
}

pub(crate) proof fn lemma_u64_round_trip(v: u64, tail: Seq<u8>)
    ensures
        parse_u64(ser_u64(v, tail)) == Some((v, tail)),
{
    let low = (v % 0x1_0000_0000) as u32;
    let high = (v / 0x1_0000_0000) as u32;
    lemma_u32_round_trip(low, ser_u32(high, tail));
    lemma_u32_round_trip(high, tail);
}

pub(crate) proof fn lemma_i32_round_trip(v: i32, tail: Seq<u8>)
    ensures
        parse_i32(ser_i32(v, tail)) == Some((v, tail)),
{
    lemma_u32_round_trip(bits_of(v), tail);
}

pub(crate) proof fn lemma_bytes_round_trip(b: Seq<u8>, tail: Seq<u8>)
    requires
        b.len() <= u64::MAX,
    ensures
        parse_bytes(ser_bytes(b, tail)) == Some((b, tail)),
{
    lemma_u64_round_trip(b.len() as u64, b + tail);
    assert((b + tail).take(b.len() as int) =~= b);
    assert((b + tail).skip(b.len() as int) =~= tail);
}

/// A text whose UTF-8 encoding has a length that can be written.
pub open spec fn text_fits(text: Seq<char>) -> bool {
    encode_utf8(text).len() <= u64::MAX
}

pub(crate) proof fn lemma_string_round_trip(text: Seq<char>, tail: Seq<u8>)
    requires
        text_fits(text),
    ensures
        parse_string(ser_string(text, tail)) == Some((text, tail)),
{
    lemma_bytes_round_trip(encode_utf8(text), tail);
    vstd::utf8::encode_utf8_valid_utf8(text);
    vstd::utf8::encode_utf8_decode_utf8(text);
}

/// Says of `out` that it is `before` followed by the bytes of a value, where
/// `with_tail(tail)` is the value's bytes followed by `tail`.
pub open spec fn appended(before: Seq<u8>, out: Seq<u8>, with_tail: spec_fn(Seq<u8>) -> Seq<u8>) -> bool {
    forall|tail: Seq<u8>| #[trigger] (out + tail) == before + with_tail(tail)
}

pub(crate) fn put_u8(out: &mut Vec<u8>, v: u8)
    ensures
        appended(old(out)@, final(out)@, |tail: Seq<u8>| ser_u8(v, tail)),
{
    out.push(v);
    assert forall|tail: Seq<u8>| #[trigger] (out@ + tail) == old(out)@ + ser_u8(v, tail) by {
        assert(out@ + tail =~= old(out)@ + ser_u8(v, tail));
    }
}

pub(crate) fn put_bool(out: &mut Vec<u8>, v: bool)
    ensures
        appended(old(out)@, final(out)@, |tail: Seq<u8>| ser_bool(v, tail)),
{
    put_u8(
        out,
        if v {
            1
        } else {
            0
        },
    );
}

pub(crate) fn put_u32(out: &mut Vec<u8>, v: u32)
    ensures
        appended(old(out)@, final(out)@, |tail: Seq<u8>| ser_u32(v, tail)),
{
    out.push((v % 256) as u8);
    out.push((v / 256 % 256) as u8);
    out.push((v / 65_536 % 256) as u8);
    out.push((v / 16_777_216 % 256) as u8);
    assert forall|tail: Seq<u8>| #[trigger] (out@ + tail) == old(out)@ + ser_u32(v, tail) by {
        assert(out@ + tail =~= old(out)@ + ser_u32(v, tail));
    }
}

pub(crate) fn put_u64(out: &mut Vec<u8>, v: u64)
    ensures
        appended(old(out)@, final(out)@, |tail: Seq<u8>| ser_u64(v, tail)),
{
    let low = (v % 0x1_0000_0000) as u32;
    let high = (v / 0x1_0000_0000) as u32;
    put_u32(out, low);
    let ghost mid = out@;
    put_u32(out, high);
    assert forall|tail: Seq<u8>| #[trigger] (out@ + tail) == old(out)@ + ser_u64(v, tail) by {
        assert(out@ + tail == mid + ser_u32(high, tail));
        assert(mid + ser_u32(high, tail) == old(out)@ + ser_u32(low, ser_u32(high, tail)));
    }
}

pub(crate) fn put_i32(out: &mut Vec<u8>, v: i32)
    ensures
        appended(old(out)@, final(out)@, |tail: Seq<u8>| ser_i32(v, tail)),
{
    let bits: u32 = if v < 0 {
        (v as i64 + 0x1_0000_0000) as u32
    } else {
        v as u32
    };
    put_u32(out, bits);
}

pub(crate) fn put_bytes(out: &mut Vec<u8>, b: &[u8])
    ensures
        appended(old(out)@, final(out)@, |tail: Seq<u8>| ser_bytes(b@, tail)),
        b@.len() <= u64::MAX,
{
    put_u64(out, b.len() as u64);
    let ghost mid = out@;
    out.extend_from_slice(b);
    assert forall|tail: Seq<u8>| #[trigger] (out@ + tail) == old(out)@ + ser_bytes(b@, tail) by {
        assert(out@ + tail =~= mid + (b@ + tail));
        assert(mid + (b@ + tail) == old(out)@ + ser_u64(b@.len() as u64, b@ + tail));
    }
}

pub(crate) fn put_string(out: &mut Vec<u8>, text: &str)
    ensures
        appended(old(out)@, final(out)@, |tail: Seq<u8>| ser_string(text@, tail)),
        text_fits(text@),
{
    put_bytes(out, text.as_bytes());
}

pub(crate) fn get_u8(bytes: &[u8], pos: usize) -> (r: Option<(u8, usize)>)
    requires
        pos <= bytes@.len(),
    ensures
        match parse_u8(bytes@.skip(pos as int)) {
            Some((v, rest)) => r matches Some((got, next)) && got == v && next == pos + 1 && next
                <= bytes@.len() && rest == bytes@.skip(pos + 1),
            None => r is None,
        },
{
    if bytes.len() - pos < 1 {
        return None;
    }
    assert(bytes@.skip(pos as int).skip(1) =~= bytes@.skip(pos + 1));
    Some((bytes[pos], pos + 1))
}

pub(crate) fn get_bool(bytes: &[u8], pos: usize) -> (r: Option<(bool, usize)>)
    requires
        pos <= bytes@.len(),
    ensures
        match parse_bool(bytes@.skip(pos as int)) {
            Some((v, rest)) => r matches Some((got, next)) && got == v && next == pos + 1 && next
                <= bytes@.len() && rest == bytes@.skip(pos + 1),
            None => r is None,
        },
{
    match get_u8(bytes, pos) {
        Some((b, next)) => {
            if b == 0 {
                Some((false, next))
            } else if b == 1 {
                Some((true, next))
            } else {
                None
            }
        },
        None => None,
    }
}

pub(crate) fn get_u32(bytes: &[u8], pos: usize) -> (r: Option<(u32, usize)>)
    requires
        pos <= bytes@.len(),
    ensures
        match parse_u32(bytes@.skip(pos as int)) {
            Some((v, rest)) => r matches Some((got, next)) && got == v && next == pos + 4 && next
                <= bytes@.len() && rest == bytes@.skip(pos + 4),
            None => r is None,
        },
{
    if bytes.len() - pos < 4 {
        return None;
    }
    assert(bytes@.skip(pos as int).skip(4) =~= bytes@.skip(pos + 4));
    let v: u32 = (bytes[pos] as u32) + (bytes[pos + 1] as u32) * 256 + (bytes[pos + 2] as u32)
        * 65_536 + (bytes[pos + 3] as u32) * 16_777_216;
    Some((v, pos + 4))
}

pub(crate) fn get_u64(bytes: &[u8], pos: usize) -> (r: Option<(u64, usize)>)
    requires
        pos <= bytes@.len(),
    ensures
        match parse_u64(bytes@.skip(pos as int)) {
            Some((v, rest)) => r matches Some((got, next)) && got == v && next == pos + 8 && next
                <= bytes@.len() && rest == bytes@.skip(pos + 8),
            None => r is None,
        },
{
    match get_u32(bytes, pos) {
        Some((low, mid)) => {
            match get_u32(bytes, mid) {
                Some((high, next)) => {
                    let v: u64 = (low as u64) + (high as u64) * 0x1_0000_0000;
                    Some((v, next))
                },
                None => None,
            }
        },
        None => None,
    }
}

pub(crate) fn get_i32(bytes: &[u8], pos: usize) -> (r: Option<(i32, usize)>)
    requires
        pos <= bytes@.len(),
    ensures
        match parse_i32(bytes@.skip(pos as int)) {
            Some((v, rest)) => r matches Some((got, next)) && got == v && next == pos + 4 && next
                <= bytes@.len() && rest == bytes@.skip(pos + 4),
            None => r is None,
        },
{
    match get_u32(bytes, pos) {
        Some((u, next)) => {
            let v: i32 = if u >= 0x8000_0000 {
                (u as i64 - 0x1_0000_0000) as i32
            } else {
                u as i32
            };
            Some((v, next))
        },
        None => None,
    }
}

pub(crate) fn get_bytes(bytes: &[u8], pos: usize) -> (r: Option<(Vec<u8>, usize)>)
    requires
        pos <= bytes@.len(),
    ensures
        match parse_bytes(bytes@.skip(pos as int)) {
            Some((v, rest)) => r matches Some((got, next)) && got@ == v && pos <= next <= bytes@.len()
                && rest == bytes@.skip(next as int),
            None => r is None,
        },
{
    let (len, start) = match get_u64(bytes, pos) {
        Some(found) => found,
        None => {
            return None;
        },
    };
    if ((bytes.len() - start) as u64) < len {
        return None;
    }
    let len: usize = len as usize;
    let got = vstd::slice::slice_to_vec(vstd::slice::slice_subrange(bytes, start, start + len));
    assert(got@ =~= bytes@.skip(start as int).take(len as int));
    assert(bytes@.skip(start as int).skip(len as int) =~= bytes@.skip(start + len));
    Some((got, start + len))
}

/// Makes a text of bytes with `String::from_utf8` of the standard library.
///
/// The standard library documents that the bytes are checked to be valid
/// UTF-8, that the text holds exactly these bytes if they are, and that the
/// conversion fails if they are not.
#[verifier::external_body]
fn text_of(bytes: Vec<u8>) -> (text: Option<String>)
    ensures
        match text {
            Some(t) => valid_utf8(bytes@) && t@ == decode_utf8(bytes@),
            None => !valid_utf8(bytes@),
        },
{
    match String::from_utf8(bytes) {
        Ok(text) => Some(text),
        Err(_) => None,
    }
}

pub(crate) fn get_string(bytes: &[u8], pos: usize) -> (r: Option<(String, usize)>)
    requires
        pos <= bytes@.len(),
    ensures
        match parse_string(bytes@.skip(pos as int)) {
            Some((v, rest)) => r matches Some((got, next)) && got@ == v && pos <= next <= bytes@.len()
                && rest == bytes@.skip(next as int),
            None => r is None,
        },
{
    match get_bytes(bytes, pos) {
        Some((raw, next)) => match text_of(raw) {
            Some(text) => Some((text, next)),
            None => None,
        },
        None => None,
    }
}


pub open spec fn ser_side(v: ScreenSide, tail: Seq<u8>) -> Seq<u8> {
    ser_u32(
        match v {
            ScreenSide::Local => 0,
            ScreenSide::Remote => 1,
        },
        tail,
    )
}

pub open spec fn parse_side(s: Seq<u8>) -> Option<(ScreenSide, Seq<u8>)> {
    match parse_u32(s) {
        Some((tag, rest)) => if tag == 0 {
            Some((ScreenSide::Local, rest))
        } else if tag == 1 {
            Some((ScreenSide::Remote, rest))
        } else {
            None
        },
        None => None,
    }
}

pub(crate) proof fn lemma_side_round_trip(v: ScreenSide, tail: Seq<u8>)
    ensures
        parse_side(ser_side(v, tail)) == Some((v, tail)),
{
    lemma_u32_round_trip(
        match v {
            ScreenSide::Local => 0,
            ScreenSide::Remote => 1,
        },
        tail,
    );
}

fn put_side(out: &mut Vec<u8>, v: ScreenSide)
    ensures
        appended(old(out)@, final(out)@, |tail: Seq<u8>| ser_side(v, tail)),
{
    put_u32(
        out,
        match v {
            ScreenSide::Local => 0,
            ScreenSide::Remote => 1,
        },
    );
}

fn get_side(bytes: &[u8], pos: usize) -> (r: Option<(ScreenSide, usize)>)
    requires
        pos <= bytes@.len(),
    ensures
        match parse_side(bytes@.skip(pos as int)) {
            Some((v, rest)) => r matches Some((got, next)) && got == v && pos <= next <= bytes@.len()
                && rest == bytes@.skip(next as int),
            None => r is None,
        },
{
    match get_u32(bytes, pos) {
        Some((tag, next)) => {
            if tag == 0 {
                Some((ScreenSide::Local, next))
            } else if tag == 1 {
                Some((ScreenSide::Remote, next))
            } else {
                None
            }
        },
        None => None,
    }
}

pub open spec fn ser_button(v: MouseButton, tail: Seq<u8>) -> Seq<u8> {
    ser_u32(
        match v {
            MouseButton::Left => 0,
            MouseButton::Right => 1,
            MouseButton::Middle => 2,
        },
        tail,
    )
}

pub open spec fn parse_button(s: Seq<u8>) -> Option<(MouseButton, Seq<u8>)> {
    match parse_u32(s) {
        Some((tag, rest)) => if tag == 0 {
            Some((MouseButton::Left, rest))
        } else if tag == 1 {
            Some((MouseButton::Right, rest))
        } else if tag == 2 {
            Some((MouseButton::Middle, rest))
        } else {
            None
        },
        None => None,
    }
}

pub(crate) proof fn lemma_button_round_trip(v: MouseButton, tail: Seq<u8>)
    ensures
        parse_button(ser_button(v, tail)) == Some((v, tail)),
{
    lemma_u32_round_trip(
        match v {
            MouseButton::Left => 0,
            MouseButton::Right => 1,
            MouseButton::Middle => 2,
        },
        tail,
    );
}

fn put_button(out: &mut Vec<u8>, v: MouseButton)
    ensures
        appended(old(out)@, final(out)@, |tail: Seq<u8>| ser_button(v, tail)),
{
    put_u32(
        out,
        match v {
            MouseButton::Left => 0,
            MouseButton::Right => 1,
            MouseButton::Middle => 2,
        },
    );
}

fn get_button(bytes: &[u8], pos: usize) -> (r: Option<(MouseButton, usize)>)
    requires
        pos <= bytes@.len(),
    ensures
        match parse_button(bytes@.skip(pos as int)) {
            Some((v, rest)) => r matches Some((got, next)) && got == v && pos <= next <= bytes@.len()
                && rest == bytes@.skip(next as int),
            None => r is None,
        },
{
    match get_u32(bytes, pos) {
        Some((tag, next)) => {
            if tag == 0 {
                Some((MouseButton::Left, next))
            } else if tag == 1 {
                Some((MouseButton::Right, next))
            } else if tag == 2 {
                Some((MouseButton::Middle, next))
            } else {
                None
            }
        },
        None => None,
    }
}

pub open spec fn ser_screen(v: ScreenInfo, tail: Seq<u8>) -> Seq<u8> {
    ser_u32(v.width, ser_u32(v.height, ser_u32(v.dpi_scale, tail)))
}

pub open spec fn parse_screen(s: Seq<u8>) -> Option<(ScreenInfo, Seq<u8>)> {
    match parse_u32(s) {
        Some((width, rest)) => match parse_u32(rest) {
            Some((height, rest)) => match parse_u32(rest) {
                Some((dpi_scale, rest)) => Some((ScreenInfo { width, height, dpi_scale }, rest)),
                None => None,
            },
            None => None,
        },
        None => None,
    }
}

pub(crate) proof fn lemma_screen_round_trip(v: ScreenInfo, tail: Seq<u8>)
    ensures
        parse_screen(ser_screen(v, tail)) == Some((v, tail)),
{
    lemma_u32_round_trip(v.width, ser_u32(v.height, ser_u32(v.dpi_scale, tail)));
    lemma_u32_round_trip(v.height, ser_u32(v.dpi_scale, tail));
    lemma_u32_round_trip(v.dpi_scale, tail);
}

fn put_screen(out: &mut Vec<u8>, v: ScreenInfo)
    ensures
        appended(old(out)@, final(out)@, |tail: Seq<u8>| ser_screen(v, tail)),
{
    put_u32(out, v.width);
    let ghost a = out@;
    put_u32(out, v.height);
    let ghost b = out@;
    put_u32(out, v.dpi_scale);
    assert forall|tail: Seq<u8>| #[trigger] (out@ + tail) == old(out)@ + ser_screen(v, tail) by {
        assert(out@ + tail == b + ser_u32(v.dpi_scale, tail));
        assert(b + ser_u32(v.dpi_scale, tail) == a + ser_u32(
            v.height,
            ser_u32(v.dpi_scale, tail),
        ));
    }
}

fn get_screen(bytes: &[u8], pos: usize) -> (r: Option<(ScreenInfo, usize)>)
    requires
        pos <= bytes@.len(),
    ensures
        match parse_screen(bytes@.skip(pos as int)) {
            Some((v, rest)) => r matches Some((got, next)) && got == v && pos <= next <= bytes@.len()
                && rest == bytes@.skip(next as int),
            None => r is None,
        },
{
    let (width, pos) = match get_u32(bytes, pos) {
        Some(found) => found,
        None => {
            return None;
        },
    };
    let (height, pos) = match get_u32(bytes, pos) {
        Some(found) => found,
        None => {
            return None;
        },
    };
    let (dpi_scale, pos) = match get_u32(bytes, pos) {
        Some(found) => found,
        None => {
            return None;
        },
    };
    Some((ScreenInfo { width, height, dpi_scale }, pos))
}

pub open spec fn ser_opt_screen(v: Option<ScreenInfo>, tail: Seq<u8>) -> Seq<u8> {
    match v {
        None => ser_u8(0, tail),
        Some(screen) => ser_u8(1, ser_screen(screen, tail)),
    }
}

pub open spec fn parse_opt_screen(s: Seq<u8>) -> Option<(Option<ScreenInfo>, Seq<u8>)> {
    match parse_u8(s) {
        Some((tag, rest)) => if tag == 0 {
            Some((None, rest))
        } else if tag == 1 {
            match parse_screen(rest) {
                Some((screen, rest)) => Some((Some(screen), rest)),
                None => None,
            }
        } else {
            None
        },
        None => None,
    }
}

pub(crate) proof fn lemma_opt_screen_round_trip(v: Option<ScreenInfo>, tail: Seq<u8>)
    ensures
        parse_opt_screen(ser_opt_screen(v, tail)) == Some((v, tail)),
{
    match v {
        None => {
            lemma_u8_round_trip(0, tail);
        },
        Some(screen) => {
            lemma_u8_round_trip(1, ser_screen(screen, tail));
            lemma_screen_round_trip(screen, tail);
        },
    }
}

fn put_opt_screen(out: &mut Vec<u8>, v: Option<ScreenInfo>)
    ensures
        appended(old(out)@, final(out)@, |tail: Seq<u8>| ser_opt_screen(v, tail)),
{
    match v {
        None => {
            put_u8(out, 0);
        },
        Some(screen) => {
            put_u8(out, 1);
            let ghost a = out@;
            put_screen(out, screen);
            assert forall|tail: Seq<u8>| #[trigger] (out@ + tail) == old(out)@ + ser_opt_screen(
                v,
                tail,
            ) by {
                assert(out@ + tail == a + ser_screen(screen, tail));
            }
        },
    }
}

fn get_opt_screen(bytes: &[u8], pos: usize) -> (r: Option<(Option<ScreenInfo>, usize)>)
    requires
        pos <= bytes@.len(),
    ensures
        match parse_opt_screen(bytes@.skip(pos as int)) {
            Some((v, rest)) => r matches Some((got, next)) && got == v && pos <= next <= bytes@.len()
                && rest == bytes@.skip(next as int),
            None => r is None,
        },
{
    match get_u8(bytes, pos) {
        Some((tag, next)) => {
            if tag == 0 {
                Some((None, next))
            } else if tag == 1 {
                match get_screen(bytes, next) {
                    Some((screen, next)) => Some((Some(screen), next)),
                    None => None,
                }
            } else {
                None
            }
        },
        None => None,
    }
}

pub open spec fn ser_input(v: InputEvent, tail: Seq<u8>) -> Seq<u8> {
    match v {
        InputEvent::MouseMove { x, y } => ser_u32(0, ser_u32(x, ser_u32(y, tail))),
        InputEvent::MouseButton { button, is_down } => ser_u32(
            1,
            ser_button(button, ser_bool(is_down, tail)),
        ),
        InputEvent::Keyboard { key_code, is_down } => ser_u32(
            2,
            ser_u32(key_code, ser_bool(is_down, tail)),
        ),
        InputEvent::Scroll { dx, dy } => ser_u32(3, ser_i32(dx, ser_i32(dy, tail))),
        InputEvent::ScreenSwitch(side) => ser_u32(4, ser_side(side, tail)),
    }
}

pub open spec fn parse_input(s: Seq<u8>) -> Option<(InputEvent, Seq<u8>)> {
    match parse_u32(s) {
        Some((tag, rest)) => if tag == 0 {
            match parse_u32(rest) {
                Some((x, rest)) => match parse_u32(rest) {
                    Some((y, rest)) => Some((InputEvent::MouseMove { x, y }, rest)),
                    None => None,
                },
                None => None,
            }
        } else if tag == 1 {
            match parse_button(rest) {
                Some((button, rest)) => match parse_bool(rest) {
                    Some((is_down, rest)) => Some(
                        (InputEvent::MouseButton { button, is_down }, rest),
                    ),
                    None => None,
                },
                None => None,
            }
        } else if tag == 2 {
            match parse_u32(rest) {
                Some((key_code, rest)) => match parse_bool(rest) {
                    Some((is_down, rest)) => Some(
                        (InputEvent::Keyboard { key_code, is_down }, rest),
                    ),
                    None => None,
                },
                None => None,
            }
        } else if tag == 3 {
            match parse_i32(rest) {
                Some((dx, rest)) => match parse_i32(rest) {
                    Some((dy, rest)) => Some((InputEvent::Scroll { dx, dy }, rest)),
                    None => None,
                },
                None => None,
            }
        } else if tag == 4 {
            match parse_side(rest) {
                Some((side, rest)) => Some((InputEvent::ScreenSwitch(side), rest)),
                None => None,
            }
        } else {
            None
        },
        None => None,
    }
}

pub(crate) proof fn lemma_input_round_trip(v: InputEvent, tail: Seq<u8>)
    ensures
        parse_input(ser_input(v, tail)) == Some((v, tail)),
{
    match v {
        InputEvent::MouseMove { x, y } => {
            lemma_u32_round_trip(0, ser_u32(x, ser_u32(y, tail)));
            lemma_u32_round_trip(x, ser_u32(y, tail));
            lemma_u32_round_trip(y, tail);
        },
        InputEvent::MouseButton { button, is_down } => {
            lemma_u32_round_trip(1, ser_button(button, ser_bool(is_down, tail)));
            lemma_button_round_trip(button, ser_bool(is_down, tail));
            lemma_bool_round_trip(is_down, tail);
        },
        InputEvent::Keyboard { key_code, is_down } => {
            lemma_u32_round_trip(2, ser_u32(key_code, ser_bool(is_down, tail)));
            lemma_u32_round_trip(key_code, ser_bool(is_down, tail));
            lemma_bool_round_trip(is_down, tail);
        },
        InputEvent::Scroll { dx, dy } => {
            lemma_u32_round_trip(3, ser_i32(dx, ser_i32(dy, tail)));
            lemma_i32_round_trip(dx, ser_i32(dy, tail));
            lemma_i32_round_trip(dy, tail);
        },
        InputEvent::ScreenSwitch(side) => {
            lemma_u32_round_trip(4, ser_side(side, tail));
            lemma_side_round_trip(side, tail);
        },
    }
}

fn put_input(out: &mut Vec<u8>, v: InputEvent)
    ensures
        appended(old(out)@, final(out)@, |tail: Seq<u8>| ser_input(v, tail)),
{
    match v {
        InputEvent::MouseMove { x, y } => {
            put_u32(out, 0);
            let ghost a = out@;
            put_u32(out, x);
            let ghost b = out@;
            put_u32(out, y);
            assert forall|tail: Seq<u8>| #[trigger] (out@ + tail) == old(out)@ + ser_input(
                v,
                tail,
            ) by {
                assert(out@ + tail == b + ser_u32(y, tail));
                assert(b + ser_u32(y, tail) == a + ser_u32(x, ser_u32(y, tail)));
            }
        },
        InputEvent::MouseButton { button, is_down } => {
            put_u32(out, 1);
            let ghost a = out@;
            put_button(out, button);
            let ghost b = out@;
            put_bool(out, is_down);
            assert forall|tail: Seq<u8>| #[trigger] (out@ + tail) == old(out)@ + ser_input(
                v,
                tail,
            ) by {
                assert(out@ + tail == b + ser_bool(is_down, tail));
                assert(b + ser_bool(is_down, tail) == a + ser_button(
                    button,
                    ser_bool(is_down, tail),
                ));
            }
        },
        InputEvent::Keyboard { key_code, is_down } => {
            put_u32(out, 2);
            let ghost a = out@;
            put_u32(out, key_code);
            let ghost b = out@;
            put_bool(out, is_down);
            assert forall|tail: Seq<u8>| #[trigger] (out@ + tail) == old(out)@ + ser_input(
                v,
                tail,
            ) by {
                assert(out@ + tail == b + ser_bool(is_down, tail));
                assert(b + ser_bool(is_down, tail) == a + ser_u32(
                    key_code,
                    ser_bool(is_down, tail),
                ));
            }
        },
        InputEvent::Scroll { dx, dy } => {
            put_u32(out, 3);
            let ghost a = out@;
            put_i32(out, dx);
            let ghost b = out@;
            put_i32(out, dy);
            assert forall|tail: Seq<u8>| #[trigger] (out@ + tail) == old(out)@ + ser_input(
                v,
                tail,
            ) by {
                assert(out@ + tail == b + ser_i32(dy, tail));
                assert(b + ser_i32(dy, tail) == a + ser_i32(dx, ser_i32(dy, tail)));
            }
        },
        InputEvent::ScreenSwitch(side) => {
            put_u32(out, 4);
            let ghost a = out@;
            put_side(out, side);
            assert forall|tail: Seq<u8>| #[trigger] (out@ + tail) == old(out)@ + ser_input(
                v,
                tail,
            ) by {
                assert(out@ + tail == a + ser_side(side, tail));
            }
        },
    }
}

fn get_input(bytes: &[u8], pos: usize) -> (r: Option<(InputEvent, usize)>)
    requires
        pos <= bytes@.len(),
    ensures
        match parse_input(bytes@.skip(pos as int)) {
            Some((v, rest)) => r matches Some((got, next)) && got == v && pos <= next <= bytes@.len()
                && rest == bytes@.skip(next as int),
            None => r is None,
        },
{
    let (tag, pos) = match get_u32(bytes, pos) {
        Some(found) => found,
        None => {
            return None;
        },
    };
    if tag == 0 {
        let (x, pos) = match get_u32(bytes, pos) {
            Some(found) => found,
            None => {
                return None;
            },
        };
        let (y, pos) = match get_u32(bytes, pos) {
            Some(found) => found,
            None => {
                return None;
            },
        };
        Some((InputEvent::MouseMove { x, y }, pos))
    } else if tag == 1 {
        let (button, pos) = match get_button(bytes, pos) {
            Some(found) => found,
            None => {
                return None;
            },
        };
        let (is_down, pos) = match get_bool(bytes, pos) {
            Some(found) => found,
            None => {
                return None;
            },
        };
        Some((InputEvent::MouseButton { button, is_down }, pos))
    } else if tag == 2 {
        let (key_code, pos) = match get_u32(bytes, pos) {
            Some(found) => found,
            None => {
                return None;
            },
        };
        let (is_down, pos) = match get_bool(bytes, pos) {
            Some(found) => found,
            None => {
                return None;
            },
        };
        Some((InputEvent::Keyboard { key_code, is_down }, pos))
    } else if tag == 3 {
        let (dx, pos) = match get_i32(bytes, pos) {
            Some(found) => found,
            None => {
                return None;
            },
        };
        let (dy, pos) = match get_i32(bytes, pos) {
            Some(found) => found,
            None => {
                return None;
            },
        };
        Some((InputEvent::Scroll { dx, dy }, pos))
    } else if tag == 4 {
        match get_side(bytes, pos) {
            Some((side, pos)) => Some((InputEvent::ScreenSwitch(side), pos)),
            None => None,
        }
    } else {
        None
    }
}


pub open spec fn ser_purpose(v: TransferPurpose, tail: Seq<u8>) -> Seq<u8> {
    match v {
        TransferPurpose::Manual => ser_u32(0, tail),
        TransferPurpose::ClipboardSync { batch_id } => ser_u32(1, ser_u64(batch_id, tail)),
    }
}

pub open spec fn parse_purpose(s: Seq<u8>) -> Option<(TransferPurpose, Seq<u8>)> {
    match parse_u32(s) {
        Some((tag, rest)) => if tag == 0 {
            Some((TransferPurpose::Manual, rest))
        } else if tag == 1 {
            match parse_u64(rest) {
                Some((batch_id, rest)) => Some((TransferPurpose::ClipboardSync { batch_id }, rest)),
                None => None,
            }
        } else {
            None
        },
        None => None,
    }
}

pub(crate) proof fn lemma_purpose_round_trip(v: TransferPurpose, tail: Seq<u8>)
    ensures
        parse_purpose(ser_purpose(v, tail)) == Some((v, tail)),
{
    match v {
        TransferPurpose::Manual => {
            lemma_u32_round_trip(0, tail);
        },
        TransferPurpose::ClipboardSync { batch_id } => {
            lemma_u32_round_trip(1, ser_u64(batch_id, tail));
            lemma_u64_round_trip(batch_id, tail);
        },
    }
}

fn put_purpose(out: &mut Vec<u8>, v: TransferPurpose)
    ensures
        appended(old(out)@, final(out)@, |tail: Seq<u8>| ser_purpose(v, tail)),
{
    match v {
        TransferPurpose::Manual => {
            put_u32(out, 0);
        },
        TransferPurpose::ClipboardSync { batch_id } => {
            put_u32(out, 1);
            let ghost a = out@;
            put_u64(out, batch_id);
            assert forall|tail: Seq<u8>| #[trigger] (out@ + tail) == old(out)@ + ser_purpose(
                v,
                tail,
            ) by {
                assert(out@ + tail == a + ser_u64(batch_id, tail));
            }
        },
    }
}

fn get_purpose(bytes: &[u8], pos: usize) -> (r: Option<(TransferPurpose, usize)>)
    requires
        pos <= bytes@.len(),
    ensures
        match parse_purpose(bytes@.skip(pos as int)) {
            Some((v, rest)) => r matches Some((got, next)) && got == v && pos <= next <= bytes@.len()
                && rest == bytes@.skip(next as int),
            None => r is None,
        },
{
    match get_u32(bytes, pos) {
        Some((tag, next)) => {
            if tag == 0 {
                Some((TransferPurpose::Manual, next))
            } else if tag == 1 {
                match get_u64(bytes, next) {
                    Some((batch_id, next)) => Some(
                        (TransferPurpose::ClipboardSync { batch_id }, next),
                    ),
                    None => None,
                }
            } else {
                None
            }
        },
        None => None,
    }
}

pub open spec fn ser_request(v: FileTransferRequestView, tail: Seq<u8>) -> Seq<u8> {
    ser_u32(v.id, ser_string(v.filename, ser_u64(v.file_size, ser_purpose(v.purpose, tail))))
}

pub open spec fn parse_request(s: Seq<u8>) -> Option<(FileTransferRequestView, Seq<u8>)> {
    match parse_u32(s) {
        Some((id, rest)) => match parse_string(rest) {
            Some((filename, rest)) => match parse_u64(rest) {
                Some((file_size, rest)) => match parse_purpose(rest) {
                    Some((purpose, rest)) => Some(
                        (FileTransferRequestView { id, filename, file_size, purpose }, rest),
                    ),
                    None => None,
                },
                None => None,
            },
            None => None,
        },
        None => None,
    }
}

pub(crate) proof fn lemma_request_round_trip(v: FileTransferRequestView, tail: Seq<u8>)
    requires
        text_fits(v.filename),
    ensures
        parse_request(ser_request(v, tail)) == Some((v, tail)),
{
    lemma_u32_round_trip(
        v.id,
        ser_string(v.filename, ser_u64(v.file_size, ser_purpose(v.purpose, tail))),
    );
    lemma_string_round_trip(v.filename, ser_u64(v.file_size, ser_purpose(v.purpose, tail)));
    lemma_u64_round_trip(v.file_size, ser_purpose(v.purpose, tail));
    lemma_purpose_round_trip(v.purpose, tail);
}

fn put_request(out: &mut Vec<u8>, v: &FileTransferRequest)
    ensures
        appended(old(out)@, final(out)@, |tail: Seq<u8>| ser_request(v@, tail)),
        text_fits(v@.filename),
{
    put_u32(out, v.id);
    let ghost a = out@;
    put_string(out, v.filename.as_str());
    let ghost b = out@;
    put_u64(out, v.file_size);
    let ghost c = out@;
    put_purpose(out, v.purpose);
    assert forall|tail: Seq<u8>| #[trigger] (out@ + tail) == old(out)@ + ser_request(v@, tail) by {
        let t3 = ser_purpose(v.purpose, tail);
        let t2 = ser_u64(v.file_size, t3);
        let t1 = ser_string(v.filename@, t2);
        assert(out@ + tail == c + t3);
        assert(c + t3 == b + t2);
        assert(b + t2 == a + t1);
    }
}

fn get_request(bytes: &[u8], pos: usize) -> (r: Option<(FileTransferRequest, usize)>)
    requires
        pos <= bytes@.len(),
    ensures
        match parse_request(bytes@.skip(pos as int)) {
            Some((v, rest)) => r matches Some((got, next)) && got@ == v && pos <= next <= bytes@.len()
                && rest == bytes@.skip(next as int),
            None => r is None,
        },
{
    let (id, pos) = match get_u32(bytes, pos) {
        Some(found) => found,
        None => {
            return None;
        },
    };
    let (filename, pos) = match get_string(bytes, pos) {
        Some(found) => found,
        None => {
            return None;
        },
    };
    let (file_size, pos) = match get_u64(bytes, pos) {
        Some(found) => found,
        None => {
            return None;
        },
    };
    let (purpose, pos) = match get_purpose(bytes, pos) {
        Some(found) => found,
        None => {
            return None;
        },
    };
    Some((FileTransferRequest { id, filename, file_size, purpose }, pos))
}

pub open spec fn ser_response(v: FileTransferResponse, tail: Seq<u8>) -> Seq<u8> {
    ser_u32(v.id, ser_bool(v.accepted, tail))
}

pub open spec fn parse_response(s: Seq<u8>) -> Option<(FileTransferResponse, Seq<u8>)> {
    match parse_u32(s) {
        Some((id, rest)) => match parse_bool(rest) {
            Some((accepted, rest)) => Some((FileTransferResponse { id, accepted }, rest)),
            None => None,
        },
        None => None,
    }
}

pub(crate) proof fn lemma_response_round_trip(v: FileTransferResponse, tail: Seq<u8>)
    ensures
        parse_response(ser_response(v, tail)) == Some((v, tail)),
{
    lemma_u32_round_trip(v.id, ser_bool(v.accepted, tail));
    lemma_bool_round_trip(v.accepted, tail);
}

fn put_response(out: &mut Vec<u8>, v: FileTransferResponse)
    ensures
        appended(old(out)@, final(out)@, |tail: Seq<u8>| ser_response(v, tail)),
{
    put_u32(out, v.id);
    let ghost a = out@;
    put_bool(out, v.accepted);
    assert forall|tail: Seq<u8>| #[trigger] (out@ + tail) == old(out)@ + ser_response(v, tail) by {
        assert(out@ + tail == a + ser_bool(v.accepted, tail));
    }
}

fn get_response(bytes: &[u8], pos: usize) -> (r: Option<(FileTransferResponse, usize)>)
    requires
        pos <= bytes@.len(),
    ensures
        match parse_response(bytes@.skip(pos as int)) {
            Some((v, rest)) => r matches Some((got, next)) && got == v && pos <= next <= bytes@.len()
                && rest == bytes@.skip(next as int),
            None => r is None,
        },
{
    let (id, pos) = match get_u32(bytes, pos) {
        Some(found) => found,
        None => {
            return None;
        },
    };
    let (accepted, pos) = match get_bool(bytes, pos) {
        Some(found) => found,
        None => {
            return None;
        },
    };
    Some((FileTransferResponse { id, accepted }, pos))
}

pub open spec fn ser_meta(v: FileMetaView, tail: Seq<u8>) -> Seq<u8> {
    ser_string(v.name, ser_u64(v.size, tail))
}

pub open spec fn parse_meta(s: Seq<u8>) -> Option<(FileMetaView, Seq<u8>)> {
    match parse_string(s) {
        Some((name, rest)) => match parse_u64(rest) {
            Some((size, rest)) => Some((FileMetaView { name, size }, rest)),
            None => None,
        },
        None => None,
    }
}

pub(crate) proof fn lemma_meta_round_trip(v: FileMetaView, tail: Seq<u8>)
    requires
        text_fits(v.name),
    ensures
        parse_meta(ser_meta(v, tail)) == Some((v, tail)),
{
    lemma_string_round_trip(v.name, ser_u64(v.size, tail));
    lemma_u64_round_trip(v.size, tail);
}

fn put_meta(out: &mut Vec<u8>, v: &FileMeta)
    ensures
        appended(old(out)@, final(out)@, |tail: Seq<u8>| ser_meta(v@, tail)),
        text_fits(v@.name),
{
    put_string(out, v.name.as_str());
    let ghost a = out@;
    put_u64(out, v.size);
    assert forall|tail: Seq<u8>| #[trigger] (out@ + tail) == old(out)@ + ser_meta(v@, tail) by {
        assert(out@ + tail == a + ser_u64(v.size, tail));
    }
}

fn get_meta(bytes: &[u8], pos: usize) -> (r: Option<(FileMeta, usize)>)
    requires
        pos <= bytes@.len(),
    ensures
        match parse_meta(bytes@.skip(pos as int)) {
            Some((v, rest)) => r matches Some((got, next)) && got@ == v && pos <= next <= bytes@.len()
                && rest == bytes@.skip(next as int),
            None => r is None,
        },
{
    let (name, pos) = match get_string(bytes, pos) {
        Some(found) => found,
        None => {
            return None;
        },
    };
    let (size, pos) = match get_u64(bytes, pos) {
        Some(found) => found,
        None => {
            return None;
        },
    };
    Some((FileMeta { name, size }, pos))
}

/// The items of `v`, one after the other, followed by `tail`.
pub open spec fn ser_meta_items(v: Seq<FileMetaView>, tail: Seq<u8>) -> Seq<u8>
    decreases v.len(),
{
    if v.len() == 0 {
        tail
    } else {
        ser_meta(v[0], ser_meta_items(v.skip(1), tail))
    }
}

/// Takes `n` items off the front of `s`.
pub open spec fn parse_meta_items(s: Seq<u8>, n: nat) -> Option<(Seq<FileMetaView>, Seq<u8>)>
    decreases n,
{
    if n == 0 {
        Some((seq![], s))
    } else {
        match parse_meta(s) {
            Some((first, rest)) => match parse_meta_items(rest, (n - 1) as nat) {
                Some((others, rest)) => Some((seq![first] + others, rest)),
                None => None,
            },
            None => None,
        }
    }
}

pub open spec fn ser_metas(v: Seq<FileMetaView>, tail: Seq<u8>) -> Seq<u8> {
    ser_u64(v.len() as u64, ser_meta_items(v, tail))
}

pub open spec fn parse_metas(s: Seq<u8>) -> Option<(Seq<FileMetaView>, Seq<u8>)> {
    match parse_u64(s) {
        Some((n, rest)) => parse_meta_items(rest, n as nat),
        None => None,
    }
}

pub open spec fn metas_fit(v: Seq<FileMetaView>) -> bool {
    &&& v.len() <= u64::MAX
    &&& forall|i: int| 0 <= i < v.len() ==> text_fits(#[trigger] v[i].name)
}

pub(crate) proof fn lemma_meta_items_round_trip(v: Seq<FileMetaView>, tail: Seq<u8>)
    requires
        forall|i: int| 0 <= i < v.len() ==> text_fits(#[trigger] v[i].name),
    ensures
        parse_meta_items(ser_meta_items(v, tail), v.len()) == Some((v, tail)),
    decreases v.len(),
{
    if v.len() > 0 {
        let others = v.skip(1);
        assert forall|i: int| 0 <= i < others.len() implies text_fits(#[trigger] others[i].name) by {
            assert(others[i] == v[i + 1]);
        }
        lemma_meta_round_trip(v[0], ser_meta_items(others, tail));
        lemma_meta_items_round_trip(others, tail);
        assert(seq![v[0]] + others =~= v);
    }
}

pub(crate) proof fn lemma_metas_round_trip(v: Seq<FileMetaView>, tail: Seq<u8>)
    requires
        metas_fit(v),
    ensures
        parse_metas(ser_metas(v, tail)) == Some((v, tail)),
{
    lemma_u64_round_trip(v.len() as u64, ser_meta_items(v, tail));
    lemma_meta_items_round_trip(v, tail);
}

proof fn lemma_meta_items_push(v: Seq<FileMetaView>, last: FileMetaView, tail: Seq<u8>)
    ensures
        ser_meta_items(v.push(last), tail) == ser_meta_items(v, ser_meta(last, tail)),
    decreases v.len(),
{
    if v.len() == 0 {
        assert(v.push(last).skip(1) =~= Seq::<FileMetaView>::empty());
        assert(ser_meta_items(v.push(last).skip(1), tail) == tail);
    } else {
        assert(v.push(last).skip(1) =~= v.skip(1).push(last));
        lemma_meta_items_push(v.skip(1), last, tail);
    }
}

fn put_metas(out: &mut Vec<u8>, v: &Vec<FileMeta>)
    ensures
        appended(old(out)@, final(out)@, |tail: Seq<u8>| ser_metas(v.deep_view(), tail)),
        metas_fit(v.deep_view()),
{
    put_u64(out, v.len() as u64);
    let ghost a = out@;
    let ghost all = v.deep_view();
    let mut i: usize = 0;
    while i < v.len()
        invariant
            i <= v@.len(),
            all == v.deep_view(),
            forall|k: int| 0 <= k < i ==> text_fits(#[trigger] all[k].name),
            forall|tail: Seq<u8>| #[trigger] (out@ + tail) == a + ser_meta_items(all.take(i as int), tail),
        decreases v@.len() - i,
    {
        let ghost b = out@;
        put_meta(out, &v[i]);
        proof {
            assert(all.take(i + 1) =~= all.take(i as int).push(v@[i as int]@));
            assert forall|tail: Seq<u8>| #[trigger] (out@ + tail) == a + ser_meta_items(
                all.take(i + 1),
                tail,
            ) by {
                lemma_meta_items_push(all.take(i as int), v@[i as int]@, tail);
                assert(out@ + tail == b + ser_meta(v@[i as int]@, tail));
            }
        }
        i += 1;
    }
    proof {
        assert(all.take(i as int) =~= all);
        assert forall|tail: Seq<u8>| #[trigger] (out@ + tail) == old(out)@ + ser_metas(all, tail) by {
            assert(out@ + tail == a + ser_meta_items(all, tail));
        }
    }
}

fn get_metas(bytes: &[u8], pos: usize) -> (r: Option<(Vec<FileMeta>, usize)>)
    requires
        pos <= bytes@.len(),
    ensures
        match parse_metas(bytes@.skip(pos as int)) {
            Some((v, rest)) => r matches Some((got, next)) && got.deep_view() == v && pos <= next
                <= bytes@.len() && rest == bytes@.skip(next as int),
            None => r is None,
        },
{
    let (n, start) = match get_u64(bytes, pos) {
        Some(found) => found,
        None => {
            return None;
        },
    };
    let mut items: Vec<FileMeta> = Vec::new();
    let mut at: usize = start;
    let mut i: u64 = 0;
    let ghost whole = parse_meta_items(bytes@.skip(start as int), n as nat);
    while i < n
        invariant
            i <= n,
            start <= at <= bytes@.len(),
            parse_u64(bytes@.skip(pos as int)) == Some((n, bytes@.skip(start as int))),
            start <= bytes@.len(),
            whole == parse_meta_items(bytes@.skip(start as int), n as nat),
            whole == (match parse_meta_items(bytes@.skip(at as int), (n - i) as nat) {
                Some((others, rest)) => Some((items.deep_view() + others, rest)),
                None => None,
            }),
        decreases n - i,
    {
        let ghost before = items.deep_view();
        match get_meta(bytes, at) {
            Some((item, next)) => {
                proof {
                    let rest = bytes@.skip(next as int);
                    match parse_meta_items(rest, (n - i - 1) as nat) {
                        Some((others, last)) => {
                            assert(before + (seq![item@] + others) =~= before.push(item@) + others);
                        },
                        None => {},
                    }
                }
                items.push(item);
                proof {
                    assert(items.deep_view() =~= before.push(item@));
                }
                at = next;
            },
            None => {
                return None;
            },
        }
        i += 1;
    }
    proof {
        assert(items.deep_view() + Seq::<FileMetaView>::empty() =~= items.deep_view());
    }
    Some((items, at))
}

/// The texts of `v`, one after the other, followed by `tail`.
pub open spec fn ser_text_items(v: Seq<Seq<char>>, tail: Seq<u8>) -> Seq<u8>
    decreases v.len(),
{
    if v.len() == 0 {
        tail
    } else {
        ser_string(v[0], ser_text_items(v.skip(1), tail))
    }
}

/// Takes `n` texts off the front of `s`.
pub open spec fn parse_text_items(s: Seq<u8>, n: nat) -> Option<(Seq<Seq<char>>, Seq<u8>)>
    decreases n,
{
    if n == 0 {
        Some((seq![], s))
    } else {
        match parse_string(s) {
            Some((first, rest)) => match parse_text_items(rest, (n - 1) as nat) {
                Some((others, rest)) => Some((seq![first] + others, rest)),
                None => None,
            },
            None => None,
        }
    }
}

pub open spec fn ser_texts(v: Seq<Seq<char>>, tail: Seq<u8>) -> Seq<u8> {
    ser_u64(v.len() as u64, ser_text_items(v, tail))
}

pub open spec fn parse_texts(s: Seq<u8>) -> Option<(Seq<Seq<char>>, Seq<u8>)> {
    match parse_u64(s) {
        Some((n, rest)) => parse_text_items(rest, n as nat),
        None => None,
    }
}

pub open spec fn texts_fit(v: Seq<Seq<char>>) -> bool {
    &&& v.len() <= u64::MAX
    &&& forall|i: int| 0 <= i < v.len() ==> text_fits(#[trigger] v[i])
}

pub(crate) proof fn lemma_text_items_round_trip(v: Seq<Seq<char>>, tail: Seq<u8>)
    requires
        forall|i: int| 0 <= i < v.len() ==> text_fits(#[trigger] v[i]),
    ensures
        parse_text_items(ser_text_items(v, tail), v.len()) == Some((v, tail)),
    decreases v.len(),
{
    if v.len() > 0 {
        let others = v.skip(1);
        assert forall|i: int| 0 <= i < others.len() implies text_fits(#[trigger] others[i]) by {
            assert(others[i] == v[i + 1]);
        }
        lemma_string_round_trip(v[0], ser_text_items(others, tail));
        lemma_text_items_round_trip(others, tail);
        assert(seq![v[0]] + others =~= v);
    }
}

pub(crate) proof fn lemma_texts_round_trip(v: Seq<Seq<char>>, tail: Seq<u8>)
    requires
        texts_fit(v),
    ensures
        parse_texts(ser_texts(v, tail)) == Some((v, tail)),
{
    lemma_u64_round_trip(v.len() as u64, ser_text_items(v, tail));
    lemma_text_items_round_trip(v, tail);
}

proof fn lemma_text_items_push(v: Seq<Seq<char>>, last: Seq<char>, tail: Seq<u8>)
    ensures
        ser_text_items(v.push(last), tail) == ser_text_items(v, ser_string(last, tail)),
    decreases v.len(),
{
    if v.len() == 0 {
        assert(v.push(last).skip(1) =~= Seq::<Seq<char>>::empty());
        assert(ser_text_items(v.push(last).skip(1), tail) == tail);
    } else {
        assert(v.push(last).skip(1) =~= v.skip(1).push(last));
        lemma_text_items_push(v.skip(1), last, tail);
    }
}

fn put_texts(out: &mut Vec<u8>, v: &Vec<String>)
    ensures
        appended(old(out)@, final(out)@, |tail: Seq<u8>| ser_texts(v.deep_view(), tail)),
        texts_fit(v.deep_view()),
{
    put_u64(out, v.len() as u64);
    let ghost a = out@;
    let ghost all = v.deep_view();
    let mut i: usize = 0;
    while i < v.len()
        invariant
            i <= v@.len(),
            all == v.deep_view(),
            forall|k: int| 0 <= k < i ==> text_fits(#[trigger] all[k]),
            forall|tail: Seq<u8>| #[trigger] (out@ + tail) == a + ser_text_items(all.take(i as int), tail),
        decreases v@.len() - i,
    {
        let ghost b = out@;
        put_string(out, v[i].as_str());
        proof {
            assert(all.take(i + 1) =~= all.take(i as int).push(v@[i as int]@));
            assert forall|tail: Seq<u8>| #[trigger] (out@ + tail) == a + ser_text_items(
                all.take(i + 1),
                tail,
            ) by {
                lemma_text_items_push(all.take(i as int), v@[i as int]@, tail);
                assert(out@ + tail == b + ser_string(v@[i as int]@, tail));
            }
        }
        i += 1;
    }
    proof {
        assert(all.take(i as int) =~= all);
        assert forall|tail: Seq<u8>| #[trigger] (out@ + tail) == old(out)@ + ser_texts(all, tail) by {
            assert(out@ + tail == a + ser_text_items(all, tail));
        }
    }
}

fn get_texts(bytes: &[u8], pos: usize) -> (r: Option<(Vec<String>, usize)>)
    requires
        pos <= bytes@.len(),
    ensures
        match parse_texts(bytes@.skip(pos as int)) {
            Some((v, rest)) => r matches Some((got, next)) && got.deep_view() == v && pos <= next
                <= bytes@.len() && rest == bytes@.skip(next as int),
            None => r is None,
        },
{
    let (n, start) = match get_u64(bytes, pos) {
        Some(found) => found,
        None => {
            return None;
        },
    };
    let mut items: Vec<String> = Vec::new();
    let mut at: usize = start;
    let mut i: u64 = 0;
    let ghost whole = parse_text_items(bytes@.skip(start as int), n as nat);
    while i < n
        invariant
            i <= n,
            start <= at <= bytes@.len(),
            parse_u64(bytes@.skip(pos as int)) == Some((n, bytes@.skip(start as int))),
            start <= bytes@.len(),
            whole == parse_text_items(bytes@.skip(start as int), n as nat),
            whole == (match parse_text_items(bytes@.skip(at as int), (n - i) as nat) {
                Some((others, rest)) => Some((items.deep_view() + others, rest)),
                None => None,
            }),
        decreases n - i,
    {
        let ghost before = items.deep_view();
        match get_string(bytes, at) {
            Some((item, next)) => {
                proof {
                    let rest = bytes@.skip(next as int);
                    match parse_text_items(rest, (n - i - 1) as nat) {
                        Some((others, last)) => {
                            assert(before + (seq![item@] + others) =~= before.push(item@) + others);
                        },
                        None => {},
                    }
                }
                items.push(item);
                proof {
                    assert(items.deep_view() =~= before.push(item@));
                }
                at = next;
            },
            None => {
                return None;
            },
        }
        i += 1;
    }
    proof {
        assert(items.deep_view() + Seq::<Seq<char>>::empty() =~= items.deep_view());
    }
    Some((items, at))
}


pub open spec fn ser_manifest(v: FileManifestView, tail: Seq<u8>) -> Seq<u8> {
    ser_metas(v.files, ser_u64(v.total_size, ser_u64(v.batch_id, tail)))
}

pub open spec fn parse_manifest(s: Seq<u8>) -> Option<(FileManifestView, Seq<u8>)> {
    match parse_metas(s) {
        Some((files, rest)) => match parse_u64(rest) {
            Some((total_size, rest)) => match parse_u64(rest) {
                Some((batch_id, rest)) => Some(
                    (FileManifestView { files, total_size, batch_id }, rest),
                ),
                None => None,
            },
            None => None,
        },
        None => None,
    }
}

pub(crate) proof fn lemma_manifest_round_trip(v: FileManifestView, tail: Seq<u8>)
    requires
        metas_fit(v.files),
    ensures
        parse_manifest(ser_manifest(v, tail)) == Some((v, tail)),
{
    lemma_metas_round_trip(v.files, ser_u64(v.total_size, ser_u64(v.batch_id, tail)));
    lemma_u64_round_trip(v.total_size, ser_u64(v.batch_id, tail));
    lemma_u64_round_trip(v.batch_id, tail);
}

fn put_manifest(out: &mut Vec<u8>, v: &FileManifest)
    ensures
        appended(old(out)@, final(out)@, |tail: Seq<u8>| ser_manifest(v@, tail)),
        metas_fit(v@.files),
{
    put_metas(out, &v.files);
    let ghost a = out@;
    put_u64(out, v.total_size);
    let ghost b = out@;
    put_u64(out, v.batch_id);
    assert forall|tail: Seq<u8>| #[trigger] (out@ + tail) == old(out)@ + ser_manifest(v@, tail) by {
        let t2 = ser_u64(v.batch_id, tail);
        let t1 = ser_u64(v.total_size, t2);
        assert(out@ + tail == b + t2);
        assert(b + t2 == a + t1);
    }
}

fn get_manifest(bytes: &[u8], pos: usize) -> (r: Option<(FileManifest, usize)>)
    requires
        pos <= bytes@.len(),
    ensures
        match parse_manifest(bytes@.skip(pos as int)) {
            Some((v, rest)) => r matches Some((got, next)) && got@ == v && pos <= next <= bytes@.len()
                && rest == bytes@.skip(next as int),
            None => r is None,
        },
{
    let (files, pos) = match get_metas(bytes, pos) {
        Some(found) => found,
        None => {
            return None;
        },
    };
    let (total_size, pos) = match get_u64(bytes, pos) {
        Some(found) => found,
        None => {
            return None;
        },
    };
    let (batch_id, pos) = match get_u64(bytes, pos) {
        Some(found) => found,
        None => {
            return None;
        },
    };
    Some((FileManifest { files, total_size, batch_id }, pos))
}

pub open spec fn ser_clipboard(v: ClipboardEventView, tail: Seq<u8>) -> Seq<u8> {
    match v {
        ClipboardEventView::Text(text) => ser_u32(0, ser_string(text, tail)),
        ClipboardEventView::Image { data } => ser_u32(1, ser_bytes(data, tail)),
        ClipboardEventView::Files { manifest } => ser_u32(2, ser_manifest(manifest, tail)),
    }
}

pub open spec fn parse_clipboard(s: Seq<u8>) -> Option<(ClipboardEventView, Seq<u8>)> {
    match parse_u32(s) {
        Some((tag, rest)) => if tag == 0 {
            match parse_string(rest) {
                Some((text, rest)) => Some((ClipboardEventView::Text(text), rest)),
                None => None,
            }
        } else if tag == 1 {
            match parse_bytes(rest) {
                Some((data, rest)) => Some((ClipboardEventView::Image { data }, rest)),
                None => None,
            }
        } else if tag == 2 {
            match parse_manifest(rest) {
                Some((manifest, rest)) => Some((ClipboardEventView::Files { manifest }, rest)),
                None => None,
            }
        } else {
            None
        },
        None => None,
    }
}

pub open spec fn clipboard_fits(v: ClipboardEventView) -> bool {
    match v {
        ClipboardEventView::Text(text) => text_fits(text),
        ClipboardEventView::Image { data } => data.len() <= u64::MAX,
        ClipboardEventView::Files { manifest } => metas_fit(manifest.files),
    }
}

pub(crate) proof fn lemma_clipboard_round_trip(v: ClipboardEventView, tail: Seq<u8>)
    requires
        clipboard_fits(v),
    ensures
        parse_clipboard(ser_clipboard(v, tail)) == Some((v, tail)),
{
    match v {
        ClipboardEventView::Text(text) => {
            lemma_u32_round_trip(0, ser_string(text, tail));
            lemma_string_round_trip(text, tail);
        },
        ClipboardEventView::Image { data } => {
            lemma_u32_round_trip(1, ser_bytes(data, tail));
            lemma_bytes_round_trip(data, tail);
        },
        ClipboardEventView::Files { manifest } => {
            lemma_u32_round_trip(2, ser_manifest(manifest, tail));
            lemma_manifest_round_trip(manifest, tail);
        },
    }
}

fn put_clipboard(out: &mut Vec<u8>, v: &ClipboardEvent)
    ensures
        appended(old(out)@, final(out)@, |tail: Seq<u8>| ser_clipboard(v@, tail)),
        clipboard_fits(v@),
{
    match v {
        ClipboardEvent::Text(text) => {
            put_u32(out, 0);
            let ghost a = out@;
            put_string(out, text.as_str());
            assert forall|tail: Seq<u8>| #[trigger] (out@ + tail) == old(out)@ + ser_clipboard(
                v@,
                tail,
            ) by {
                assert(out@ + tail == a + ser_string(text@, tail));
            }
        },
        ClipboardEvent::Image { data } => {
            put_u32(out, 1);
            let ghost a = out@;
            put_bytes(out, data.as_slice());
            assert forall|tail: Seq<u8>| #[trigger] (out@ + tail) == old(out)@ + ser_clipboard(
                v@,
                tail,
            ) by {
                assert(out@ + tail == a + ser_bytes(data@, tail));
            }
        },
        ClipboardEvent::Files { manifest } => {
            put_u32(out, 2);
            let ghost a = out@;
            put_manifest(out, manifest);
            assert forall|tail: Seq<u8>| #[trigger] (out@ + tail) == old(out)@ + ser_clipboard(
                v@,
                tail,
            ) by {
                assert(out@ + tail == a + ser_manifest(manifest@, tail));
            }
        },
    }
}

fn get_clipboard(bytes: &[u8], pos: usize) -> (r: Option<(ClipboardEvent, usize)>)
    requires
        pos <= bytes@.len(),
    ensures
        match parse_clipboard(bytes@.skip(pos as int)) {
            Some((v, rest)) => r matches Some((got, next)) && got@ == v && pos <= next <= bytes@.len()
                && rest == bytes@.skip(next as int),
            None => r is None,
        },
{
    let (tag, pos) = match get_u32(bytes, pos) {
        Some(found) => found,
        None => {
            return None;
        },
    };
    if tag == 0 {
        match get_string(bytes, pos) {
            Some((text, pos)) => Some((ClipboardEvent::Text(text), pos)),
            None => None,
        }
    } else if tag == 1 {
        match get_bytes(bytes, pos) {
            Some((data, pos)) => Some((ClipboardEvent::Image { data }, pos)),
            None => None,
        }
    } else if tag == 2 {
        match get_manifest(bytes, pos) {
            Some((manifest, pos)) => Some((ClipboardEvent::Files { manifest }, pos)),
            None => None,
        }
    } else {
        None
    }
}

pub open spec fn ser_handshake(v: HandshakeView, tail: Seq<u8>) -> Seq<u8> {
    ser_u32(
        v.version,
        ser_string(v.client_id, ser_texts(v.capabilities, ser_opt_screen(v.screen_info, tail))),
    )
}

pub open spec fn parse_handshake(s: Seq<u8>) -> Option<(HandshakeView, Seq<u8>)> {
    match parse_u32(s) {
        Some((version, rest)) => match parse_string(rest) {
            Some((client_id, rest)) => match parse_texts(rest) {
                Some((capabilities, rest)) => match parse_opt_screen(rest) {
                    Some((screen_info, rest)) => Some(
                        (HandshakeView { version, client_id, capabilities, screen_info }, rest),
                    ),
                    None => None,
                },
                None => None,
            },
            None => None,
        },
        None => None,
    }
}

pub open spec fn handshake_fits(v: HandshakeView) -> bool {
    text_fits(v.client_id) && texts_fit(v.capabilities)
}

pub(crate) proof fn lemma_handshake_round_trip(v: HandshakeView, tail: Seq<u8>)
    requires
        handshake_fits(v),
    ensures
        parse_handshake(ser_handshake(v, tail)) == Some((v, tail)),
{
    let t3 = ser_opt_screen(v.screen_info, tail);
    let t2 = ser_texts(v.capabilities, t3);
    let t1 = ser_string(v.client_id, t2);
    lemma_u32_round_trip(v.version, t1);
    lemma_string_round_trip(v.client_id, t2);
    lemma_texts_round_trip(v.capabilities, t3);
    lemma_opt_screen_round_trip(v.screen_info, tail);
}

fn put_handshake(out: &mut Vec<u8>, v: &Handshake)
    ensures
        appended(old(out)@, final(out)@, |tail: Seq<u8>| ser_handshake(v@, tail)),
        handshake_fits(v@),
{
    put_u32(out, v.version);
    let ghost a = out@;
    put_string(out, v.client_id.as_str());
    let ghost b = out@;
    put_texts(out, &v.capabilities);
    let ghost c = out@;
    put_opt_screen(out, v.screen_info);
    assert forall|tail: Seq<u8>| #[trigger] (out@ + tail) == old(out)@ + ser_handshake(v@, tail) by {
        let t3 = ser_opt_screen(v.screen_info, tail);
        let t2 = ser_texts(v.capabilities.deep_view(), t3);
        let t1 = ser_string(v.client_id@, t2);
        assert(out@ + tail == c + t3);
        assert(c + t3 == b + t2);
        assert(b + t2 == a + t1);
    }
}

fn get_handshake(bytes: &[u8], pos: usize) -> (r: Option<(Handshake, usize)>)
    requires
        pos <= bytes@.len(),
    ensures
        match parse_handshake(bytes@.skip(pos as int)) {
            Some((v, rest)) => r matches Some((got, next)) && got@ == v && pos <= next <= bytes@.len()
                && rest == bytes@.skip(next as int),
            None => r is None,
        },
{
    let (version, pos) = match get_u32(bytes, pos) {
        Some(found) => found,
        None => {
            return None;
        },
    };
    let (client_id, pos) = match get_string(bytes, pos) {
        Some(found) => found,
        None => {
            return None;
        },
    };
    let (capabilities, pos) = match get_texts(bytes, pos) {
        Some(found) => found,
        None => {
            return None;
        },
    };
    let (screen_info, pos) = match get_opt_screen(bytes, pos) {
        Some(found) => found,
        None => {
            return None;
        },
    };
    Some((Handshake { version, client_id, capabilities, screen_info }, pos))
}

/// The bytes of `frame` followed by `tail`.
pub open spec fn ser_frame(frame: FrameView, tail: Seq<u8>) -> Seq<u8> {
    match frame {
        FrameView::Handshake(h) => ser_u32(0, ser_handshake(h, tail)),
        FrameView::Heartbeat(h) => ser_u32(1, ser_u64(h.timestamp, tail)),
        FrameView::Input(e) => ser_u32(2, ser_input(e, tail)),
        FrameView::Clipboard(e) => ser_u32(3, ser_clipboard(e, tail)),
        FrameView::FileTransferRequest(r) => ser_u32(4, ser_request(r, tail)),
        FrameView::FileTransferResponse(r) => ser_u32(5, ser_response(r, tail)),
        FrameView::FileData { id, chunk } => ser_u32(6, ser_u32(id, ser_bytes(chunk, tail))),
        FrameView::FileEnd { id } => ser_u32(7, ser_u32(id, tail)),
        FrameView::ScreenSwitch(side) => ser_u32(8, ser_side(side, tail)),
        FrameView::Notification { title, message } => ser_u32(
            9,
            ser_string(title, ser_string(message, tail)),
        ),
    }
}

/// Takes a frame off the front of `s`.
pub open spec fn parse_frame(s: Seq<u8>) -> Option<(FrameView, Seq<u8>)> {
    match parse_u32(s) {
        Some((tag, rest)) => if tag == 0 {
            match parse_handshake(rest) {
                Some((h, rest)) => Some((FrameView::Handshake(h), rest)),
                None => None,
            }
        } else if tag == 1 {
            match parse_u64(rest) {
                Some((timestamp, rest)) => Some(
                    (FrameView::Heartbeat(Heartbeat { timestamp }), rest),
                ),
                None => None,
            }
        } else if tag == 2 {
            match parse_input(rest) {
                Some((e, rest)) => Some((FrameView::Input(e), rest)),
                None => None,
            }
        } else if tag == 3 {
            match parse_clipboard(rest) {
                Some((e, rest)) => Some((FrameView::Clipboard(e), rest)),
                None => None,
            }
        } else if tag == 4 {
            match parse_request(rest) {
                Some((r, rest)) => Some((FrameView::FileTransferRequest(r), rest)),
                None => None,
            }
        } else if tag == 5 {
            match parse_response(rest) {
                Some((r, rest)) => Some((FrameView::FileTransferResponse(r), rest)),
                None => None,
            }
        } else if tag == 6 {
            match parse_u32(rest) {
                Some((id, rest)) => match parse_bytes(rest) {
                    Some((chunk, rest)) => Some((FrameView::FileData { id, chunk }, rest)),
                    None => None,
                },
                None => None,
            }
        } else if tag == 7 {
            match parse_u32(rest) {
                Some((id, rest)) => Some((FrameView::FileEnd { id }, rest)),
                None => None,
            }
        } else if tag == 8 {
            match parse_side(rest) {
                Some((side, rest)) => Some((FrameView::ScreenSwitch(side), rest)),
                None => None,
            }
        } else if tag == 9 {
            match parse_string(rest) {
                Some((title, rest)) => match parse_string(rest) {
                    Some((message, rest)) => Some(
                        (FrameView::Notification { title, message }, rest),
                    ),
                    None => None,
                },
                None => None,
            }
        } else {
            None
        },
        None => None,
    }
}

/// Whether every length in `frame` can be written: it is at most the greatest
/// `u64`. This holds of every frame that exists in memory.
pub open spec fn frame_fits(frame: FrameView) -> bool {
    match frame {
        FrameView::Handshake(h) => handshake_fits(h),
        FrameView::Clipboard(e) => clipboard_fits(e),
        FrameView::FileTransferRequest(r) => text_fits(r.filename),
        FrameView::FileData { id, chunk } => chunk.len() <= u64::MAX,
        FrameView::Notification { title, message } => text_fits(title) && text_fits(message),
        _ => true,
    }
}

/// A frame that was written is taken off the front of the bytes as it was,
/// and what followed it is left.
pub proof fn lemma_frame_bytes_round_trip(frame: FrameView, tail: Seq<u8>)
    requires
        frame_fits(frame),
    ensures
        parse_frame(ser_frame(frame, tail)) == Some((frame, tail)),
{
    match frame {
        FrameView::Handshake(h) => {
            lemma_u32_round_trip(0, ser_handshake(h, tail));
            lemma_handshake_round_trip(h, tail);
        },
        FrameView::Heartbeat(h) => {
            lemma_u32_round_trip(1, ser_u64(h.timestamp, tail));
            lemma_u64_round_trip(h.timestamp, tail);
        },
        FrameView::Input(e) => {
            lemma_u32_round_trip(2, ser_input(e, tail));
            lemma_input_round_trip(e, tail);
        },
        FrameView::Clipboard(e) => {
            lemma_u32_round_trip(3, ser_clipboard(e, tail));
            lemma_clipboard_round_trip(e, tail);
        },
        FrameView::FileTransferRequest(r) => {
            lemma_u32_round_trip(4, ser_request(r, tail));
            lemma_request_round_trip(r, tail);
        },
        FrameView::FileTransferResponse(r) => {
            lemma_u32_round_trip(5, ser_response(r, tail));
            lemma_response_round_trip(r, tail);
        },
        FrameView::FileData { id, chunk } => {
            lemma_u32_round_trip(6, ser_u32(id, ser_bytes(chunk, tail)));
            lemma_u32_round_trip(id, ser_bytes(chunk, tail));
            lemma_bytes_round_trip(chunk, tail);
        },
        FrameView::FileEnd { id } => {
            lemma_u32_round_trip(7, ser_u32(id, tail));
            lemma_u32_round_trip(id, tail);
        },
        FrameView::ScreenSwitch(side) => {
            lemma_u32_round_trip(8, ser_side(side, tail));
            lemma_side_round_trip(side, tail);
        },
        FrameView::Notification { title, message } => {
            lemma_u32_round_trip(9, ser_string(title, ser_string(message, tail)));
            lemma_string_round_trip(title, ser_string(message, tail));
            lemma_string_round_trip(message, tail);
        },
    }
}

fn put_frame(out: &mut Vec<u8>, frame: &Frame)
    ensures
        appended(old(out)@, final(out)@, |tail: Seq<u8>| ser_frame(frame@, tail)),
        frame_fits(frame@),
{
    match frame {
        Frame::Handshake(h) => {
            put_u32(out, 0);
            let ghost a = out@;
            put_handshake(out, h);
            assert forall|tail: Seq<u8>| #[trigger] (out@ + tail) == old(out)@ + ser_frame(
                frame@,
                tail,
            ) by {
                assert(out@ + tail == a + ser_handshake(h@, tail));
            }
        },
        Frame::Heartbeat(h) => {
            put_u32(out, 1);
            let ghost a = out@;
            put_u64(out, h.timestamp);
            assert forall|tail: Seq<u8>| #[trigger] (out@ + tail) == old(out)@ + ser_frame(
                frame@,
                tail,
            ) by {
                assert(out@ + tail == a + ser_u64(h.timestamp, tail));
            }
        },
        Frame::Input(e) => {
            put_u32(out, 2);
            let ghost a = out@;
            put_input(out, *e);
            assert forall|tail: Seq<u8>| #[trigger] (out@ + tail) == old(out)@ + ser_frame(
                frame@,
                tail,
            ) by {
                assert(out@ + tail == a + ser_input(*e, tail));
            }
        },
        Frame::Clipboard(e) => {
            put_u32(out, 3);
            let ghost a = out@;
            put_clipboard(out, e);
            assert forall|tail: Seq<u8>| #[trigger] (out@ + tail) == old(out)@ + ser_frame(
                frame@,
                tail,
            ) by {
                assert(out@ + tail == a + ser_clipboard(e@, tail));
            }
        },
        Frame::FileTransferRequest(r) => {
            put_u32(out, 4);
            let ghost a = out@;
            put_request(out, r);
            assert forall|tail: Seq<u8>| #[trigger] (out@ + tail) == old(out)@ + ser_frame(
                frame@,
                tail,
            ) by {
                assert(out@ + tail == a + ser_request(r@, tail));
            }
        },
        Frame::FileTransferResponse(r) => {
            put_u32(out, 5);
            let ghost a = out@;
            put_response(out, *r);
            assert forall|tail: Seq<u8>| #[trigger] (out@ + tail) == old(out)@ + ser_frame(
                frame@,
                tail,
            ) by {
                assert(out@ + tail == a + ser_response(*r, tail));
            }
        },
        Frame::FileData { id, chunk } => {
            put_u32(out, 6);
            let ghost a = out@;
            put_u32(out, *id);
            let ghost b = out@;
            put_bytes(out, chunk.as_slice());
            assert forall|tail: Seq<u8>| #[trigger] (out@ + tail) == old(out)@ + ser_frame(
                frame@,
                tail,
            ) by {
                let t1 = ser_bytes(chunk@, tail);
                assert(out@ + tail == b + t1);
                assert(b + t1 == a + ser_u32(*id, t1));
            }
        },
        Frame::FileEnd { id } => {
            put_u32(out, 7);
            let ghost a = out@;
            put_u32(out, *id);
            assert forall|tail: Seq<u8>| #[trigger] (out@ + tail) == old(out)@ + ser_frame(
                frame@,
                tail,
            ) by {
                assert(out@ + tail == a + ser_u32(*id, tail));
            }
        },
        Frame::ScreenSwitch(side) => {
            put_u32(out, 8);
            let ghost a = out@;
            put_side(out, *side);
            assert forall|tail: Seq<u8>| #[trigger] (out@ + tail) == old(out)@ + ser_frame(
                frame@,
                tail,
            ) by {
                assert(out@ + tail == a + ser_side(*side, tail));
            }
        },
        Frame::Notification { title, message } => {
            put_u32(out, 9);
            let ghost a = out@;
            put_string(out, title.as_str());
            let ghost b = out@;
            put_string(out, message.as_str());
            assert forall|tail: Seq<u8>| #[trigger] (out@ + tail) == old(out)@ + ser_frame(
                frame@,
                tail,
            ) by {
                let t1 = ser_string(message@, tail);
                assert(out@ + tail == b + t1);
                assert(b + t1 == a + ser_string(title@, t1));
            }
        },
    }
}

#[verifier::rlimit(50)]
fn get_frame(bytes: &[u8], pos: usize) -> (r: Option<(Frame, usize)>)
    requires
        pos <= bytes@.len(),
    ensures
        match parse_frame(bytes@.skip(pos as int)) {
            Some((v, rest)) => r matches Some((got, next)) && got@ == v && pos <= next <= bytes@.len()
                && rest == bytes@.skip(next as int),
            None => r is None,
        },
{
    let (tag, pos) = match get_u32(bytes, pos) {
        Some(found) => found,
        None => {
            return None;
        },
    };
    if tag == 0 {
        match get_handshake(bytes, pos) {
            Some((h, pos)) => Some((Frame::Handshake(h), pos)),
            None => None,
        }
    } else if tag == 1 {
        match get_u64(bytes, pos) {
            Some((timestamp, pos)) => Some((Frame::Heartbeat(Heartbeat { timestamp }), pos)),
            None => None,
        }
    } else if tag == 2 {
        match get_input(bytes, pos) {
            Some((e, pos)) => Some((Frame::Input(e), pos)),
            None => None,
        }
    } else if tag == 3 {
        match get_clipboard(bytes, pos) {
            Some((e, pos)) => Some((Frame::Clipboard(e), pos)),
            None => None,
        }
    } else if tag == 4 {
        match get_request(bytes, pos) {
            Some((r, pos)) => Some((Frame::FileTransferRequest(r), pos)),
            None => None,
        }
    } else if tag == 5 {
        match get_response(bytes, pos) {
            Some((r, pos)) => Some((Frame::FileTransferResponse(r), pos)),
            None => None,
        }
    } else if tag == 6 {
        let (id, pos) = match get_u32(bytes, pos) {
            Some(found) => found,
            None => {
                return None;
            },
        };
        match get_bytes(bytes, pos) {
            Some((chunk, pos)) => Some((Frame::FileData { id, chunk }, pos)),
            None => None,
        }
    } else if tag == 7 {
        match get_u32(bytes, pos) {
            Some((id, pos)) => Some((Frame::FileEnd { id }, pos)),
            None => None,
        }
    } else if tag == 8 {
        match get_side(bytes, pos) {
            Some((side, pos)) => Some((Frame::ScreenSwitch(side), pos)),
            None => None,
        }
    } else if tag == 9 {
        let (title, pos) = match get_string(bytes, pos) {
            Some(found) => found,
            None => {
                return None;
            },
        };
        match get_string(bytes, pos) {
            Some((message, pos)) => Some((Frame::Notification { title, message }, pos)),
            None => None,
        }
    } else {
        None
    }
}

/// The payload that carries `frame`.
pub open spec fn frame_bytes(frame: FrameView) -> Seq<u8> {
    ser_frame(frame, Seq::<u8>::empty())
}

/// The frame that the payload `bytes` carries: the bytes are those of one
/// frame, with nothing after it.
pub open spec fn frame_of(bytes: Seq<u8>) -> Option<FrameView> {
    match parse_frame(bytes) {
        Some((frame, rest)) => if rest.len() == 0 {
            Some(frame)
        } else {
            None
        },
        None => None,
    }
}

pub fn encode_frame(frame: &Frame) -> (payload: Vec<u8>)
    ensures
        payload@ == frame_bytes(frame@),
        frame_fits(frame@),
{
    let mut payload: Vec<u8> = Vec::new();
    put_frame(&mut payload, frame);
    assert(payload@ + Seq::<u8>::empty() =~= payload@);
    assert(Seq::<u8>::empty() + frame_bytes(frame@) =~= frame_bytes(frame@));
    payload
}

pub fn decode_frame(payload: &[u8]) -> (frame: Option<Frame>)
    ensures
        match frame_of(payload@) {
            Some(f) => frame matches Some(got) && got@ == f,
            None => frame is None,
        },
{
    assert(payload@.skip(0) =~= payload@);
    match get_frame(payload, 0) {
        Some((frame, next)) => {
            if next == payload.len() {
                Some(frame)
            } else {
                None
            }
        },
        None => None,
    }
}

/// The payload of a frame carries that frame.
pub proof fn lemma_payload_round_trip(frame: FrameView)
    requires
        frame_fits(frame),
    ensures
        frame_of(frame_bytes(frame)) == Some(frame),
{
    lemma_frame_bytes_round_trip(frame, Seq::<u8>::empty());
}

} // verus!
