//! The enrollment requests as they travel: compact binary maps with fixed
//! field numbers. Field 1 of `AddMember` is the member's identifier as a
//! byte string and field 2 its attributes; field 1 of `CreateToken` is its
//! attributes and field 2, where a duration is asked for, the duration in
//! whole seconds. Attributes travel as a map from text to text.

use vstd::prelude::*;
use vstd::string::StringSliceAdditionalSpecFns;
use vstd::utf8::valid_utf8;
use crate::attributes::pairs_view;
use crate::enrollment::{AddMember, CreateToken, EnrollmentError};

verus! {

/// The leading byte of an unsigned number.
pub const UNSIGNED: u8 = 0x00;

/// The leading byte of a byte string of length zero.
pub const BYTES: u8 = 0x40;

/// The leading byte of a text of length zero.
pub const TEXT: u8 = 0x60;

/// The leading byte of a map without entries.
pub const MAP: u8 = 0xa0;

/// The field numbers of the requests.
pub const ADD_MEMBER_MEMBER: u64 = 1;

pub const ADD_MEMBER_ATTRIBUTES: u64 = 2;

pub const CREATE_TOKEN_ATTRIBUTES: u64 = 1;

pub const CREATE_TOKEN_DURATION: u64 = 2;

/// The low `count` bytes of `x`, the most significant first.
pub open spec fn big_endian(x: u64, count: nat) -> Seq<u8>
    decreases count,
{
    if count == 0 {
        Seq::empty()
    } else {
        big_endian(x / 256, (count - 1) as nat).push((x % 256) as u8)
    }
}

/// The head of an item of the kind `kind` with the number or length `x`: the
/// kind together with `x` where `x` is under 24, and else the kind with a
/// marker of 24 to 27, followed by `x` in the fewest of 1, 2, 4 or 8 bytes.
pub open spec fn item_head(kind: u8, x: u64) -> Seq<u8> {
    if x <= 0x17 {
        seq![(kind + x) as u8]
    } else if x <= 0xff {
        seq![(kind + 24) as u8] + big_endian(x, 1)
    } else if x <= 0xffff {
        seq![(kind + 25) as u8] + big_endian(x, 2)
    } else if x <= 0xffff_ffff {
        seq![(kind + 26) as u8] + big_endian(x, 4)
    } else {
        seq![(kind + 27) as u8] + big_endian(x, 8)
    }
}

/// A text item.
pub open spec fn text_item(text: Seq<u8>) -> Seq<u8> {
    item_head(TEXT, text.len() as u64) + text
}

/// A byte string item.
pub open spec fn bytes_item(bytes: Seq<u8>) -> Seq<u8> {
    item_head(BYTES, bytes.len() as u64) + bytes
}

/// The first `n` attributes, each as its name and then its value.
pub open spec fn entries_wire(pairs: Seq<(Seq<u8>, Seq<u8>)>, n: nat) -> Seq<u8>
    decreases n,
{
    if n == 0 {
        Seq::empty()
    } else {
        entries_wire(pairs, (n - 1) as nat) + text_item(pairs[n - 1].0) + text_item(pairs[n - 1].1)
    }
}

/// An attribute map.
pub open spec fn attributes_wire(pairs: Seq<(Seq<u8>, Seq<u8>)>) -> Seq<u8> {
    item_head(MAP, pairs.len() as u64) + entries_wire(pairs, pairs.len())
}

/// Whether every name and value among the first `n` attributes is text.
pub open spec fn all_text(pairs: Seq<(Seq<u8>, Seq<u8>)>, n: nat) -> bool {
    forall|i: int| 0 <= i < n ==> valid_utf8((#[trigger] pairs[i]).0) && valid_utf8(pairs[i].1)
}

/// An `AddMember` request.
pub open spec fn add_member_wire(member: Seq<u8>, pairs: Seq<(Seq<u8>, Seq<u8>)>) -> Seq<u8> {
    item_head(MAP, 2) + item_head(UNSIGNED, ADD_MEMBER_MEMBER) + bytes_item(member) + item_head(
        UNSIGNED,
        ADD_MEMBER_ATTRIBUTES,
    ) + attributes_wire(pairs)
}

/// A `CreateToken` request. A request without a duration has one field.
pub open spec fn create_token_wire(pairs: Seq<(Seq<u8>, Seq<u8>)>, duration: Option<u64>) -> Seq<u8> {
    match duration {
        Some(secs) => item_head(MAP, 2) + item_head(UNSIGNED, CREATE_TOKEN_ATTRIBUTES)
            + attributes_wire(pairs) + item_head(UNSIGNED, CREATE_TOKEN_DURATION) + item_head(
            UNSIGNED,
            secs,
        ),
        None => item_head(MAP, 1) + item_head(UNSIGNED, CREATE_TOKEN_ATTRIBUTES) + attributes_wire(
            pairs,
        ),
    }
}

/// `minicbor::Encoder::u64` on an encoder that writes to `out`: appends the
/// number as an item head of the unsigned kind.
#[verifier::external_body]
fn put_unsigned(out: &mut Vec<u8>, value: u64)
    ensures
        final(out)@ == old(out)@ + item_head(UNSIGNED, value),
{
    let _ = minicbor::Encoder::new(out).u64(value);
}

/// `minicbor::Encoder::map` on an encoder that writes to `out`: appends the
/// head of a map of `len` entries.
#[verifier::external_body]
fn put_map_head(out: &mut Vec<u8>, len: u64)
    ensures
        final(out)@ == old(out)@ + item_head(MAP, len),
{
    let _ = minicbor::Encoder::new(out).map(len);
}

/// `minicbor::Encoder::bytes` on an encoder that writes to `out`: appends the
/// head of a byte string of the length of `bytes`, and then `bytes`.
#[verifier::external_body]
fn put_bytes(out: &mut Vec<u8>, bytes: &[u8])
    ensures
        final(out)@ == old(out)@ + bytes_item(bytes@),
{
    let _ = minicbor::Encoder::new(out).bytes(bytes);
}

/// `minicbor::Encoder::str` on an encoder that writes to `out`: appends the
/// head of a text of the length of `text` in bytes, and then those bytes.
#[verifier::external_body]
fn put_text(out: &mut Vec<u8>, text: &str)
    ensures
        final(out)@ == old(out)@ + text_item(text.spec_bytes()),
{
    let _ = minicbor::Encoder::new(out).str(text);
}

/// `core::str::from_utf8`: the bytes as text, where they are valid UTF-8.
#[verifier::external_body]
fn as_text(bytes: &[u8]) -> (text: Option<&str>)
    ensures
        match text {
            Some(s) => valid_utf8(bytes@) && s.spec_bytes() == bytes@,
            None => !valid_utf8(bytes@),
        },
{
    core::str::from_utf8(bytes).ok()
}

/// Appends the attribute map to `out`, as far as the attributes are text.
fn put_attributes(out: &mut Vec<u8>, pairs: &Vec<(Vec<u8>, Vec<u8>)>) -> (text: bool)
    ensures
        text == all_text(pairs_view(pairs@), pairs@.len()),
        text ==> final(out)@ == old(out)@ + attributes_wire(pairs_view(pairs@)),
{
    let ghost view = pairs_view(pairs@);
    put_map_head(out, pairs.len() as u64);
    let mut i: usize = 0;
    proof {
        assert(out@ =~= old(out)@ + item_head(MAP, pairs@.len() as u64) + entries_wire(view, 0));
    }
    while i < pairs.len()
        invariant
            i <= pairs.len(),
            view == pairs_view(pairs@),
            all_text(view, i as nat),
            out@ == old(out)@ + item_head(MAP, pairs@.len() as u64) + entries_wire(view, i as nat),
        decreases pairs.len() - i,
    {
        let ghost before = out@;
        let name = as_text(pairs[i].0.as_slice());
        let value = as_text(pairs[i].1.as_slice());
        match (name, value) {
            (Some(n), Some(v)) => {
                put_text(out, n);
                put_text(out, v);
                proof {
                    assert(view[i as int] == (pairs@[i as int].0@, pairs@[i as int].1@));
                    assert(out@ =~= old(out)@ + item_head(MAP, pairs@.len() as u64) + entries_wire(
                        view,
                        (i + 1) as nat,
                    ));
                }
            },
            _ => {
                proof {
                    assert(view[i as int] == (pairs@[i as int].0@, pairs@[i as int].1@));
                }
                return false;
            },
        }
        i += 1;
    }
    proof {
        assert(out@ =~= old(out)@ + attributes_wire(view));
    }
    true
}

/// The bytes of an `AddMember` request. A request with an attribute that is
/// not text cannot travel.
pub fn encode_add_member(request: &AddMember) -> (encoded: Result<Vec<u8>, EnrollmentError>)
    ensures
        match encoded {
            Ok(bytes) => all_text(request.spec_pairs(), request.spec_pairs().len()) && bytes@
                == add_member_wire(request.spec_member(), request.spec_pairs()),
            Err(e) => e == EnrollmentError::InvalidArgument && !all_text(
                request.spec_pairs(),
                request.spec_pairs().len(),
            ),
        },
{
    let pairs = request.attributes().to_pairs();
    let mut out: Vec<u8> = Vec::new();
    put_map_head(&mut out, 2);
    put_unsigned(&mut out, ADD_MEMBER_MEMBER);
    put_bytes(&mut out, request.member().as_bytes());
    put_unsigned(&mut out, ADD_MEMBER_ATTRIBUTES);
    if put_attributes(&mut out, &pairs) {
        proof {
            assert(out@ =~= add_member_wire(request.spec_member(), request.spec_pairs()));
        }
        Ok(out)
    } else {
        Err(EnrollmentError::InvalidArgument)
    }
}

/// The bytes of a `CreateToken` request. A request with an attribute that is
/// not text cannot travel.
pub fn encode_create_token(request: &CreateToken) -> (encoded: Result<Vec<u8>, EnrollmentError>)
    ensures
        match encoded {
            Ok(bytes) => all_text(request.spec_pairs(), request.spec_pairs().len()) && bytes@
                == create_token_wire(request.spec_pairs(), request.spec_duration_secs()),
            Err(e) => e == EnrollmentError::InvalidArgument && !all_text(
                request.spec_pairs(),
                request.spec_pairs().len(),
            ),
        },
{
    let pairs = request.attributes_ref().to_pairs();
    let duration = request.token_duration_secs();
    let mut out: Vec<u8> = Vec::new();
    match duration {
        Some(_) => put_map_head(&mut out, 2),
        None => put_map_head(&mut out, 1),
    }
    put_unsigned(&mut out, CREATE_TOKEN_ATTRIBUTES);
    if !put_attributes(&mut out, &pairs) {
        return Err(EnrollmentError::InvalidArgument);
    }
    match duration {
        Some(secs) => {
            put_unsigned(&mut out, CREATE_TOKEN_DURATION);
            put_unsigned(&mut out, secs);
        },
        None => {},
    }
    proof {
        assert(out@ =~= create_token_wire(request.spec_pairs(), request.spec_duration_secs()));
    }
    Ok(out)
}

} // verus!
