//! RustDesk `OnlineRequest`/`OnlineResponse` messages on the hbbs NAT-test
//! port: the request bytes written to the socket and the checks made on the
//! reply.  The wire format is protobuf (base-128 varints, length-delimited
//! fields) framed by the RustDesk bytes codec.
use vstd::prelude::*;
use vstd::slice::slice_subrange;
use vstd::utf8::encode_utf8;

use crate::text::{blank, extend_copied, is_blank};

verus! {

/// Why a presence request could not be built or a reply was refused.
#[derive(Debug, Clone, Copy, PartialEq, Eq)]
pub enum PresenceError {
    /// The bytes ended inside a varint.
    TruncatedVarint,
    /// A varint does not fit in `usize`.
    VarintOverflow,
    /// A field carries another tag than the one expected.
    UnexpectedField,
    /// A field announces more bytes than there are.
    TruncatedResponse,
    /// Bytes follow the response message.
    TrailingData,
    /// The states bitmap does not have one bit per queried id.
    InvalidBitmap,
    /// The request would not fit in a two-byte frame header.
    RequestTooLarge,
    /// The reply frame announces more than 4096 bytes.
    ResponseTooLarge,
}

/// Key of the `online_request` field of a rendezvous message (field 23, length-delimited).
pub const REQUEST_TAG: usize = 186;

/// Key of the `online_response` field of a rendezvous message (field 24, length-delimited).
pub const RESPONSE_TAG: usize = 194;

/// Key of the `peers` field of an `OnlineRequest` (field 2, length-delimited).
pub const PEER_TAG: u8 = 18;

/// Key of the `states` field of an `OnlineResponse` (field 1, length-delimited).
pub const STATES_TAG: usize = 10;

/// Largest reply frame accepted.
pub const MAX_RESPONSE: usize = 4096;

/// Largest request payload that a two-byte frame header can announce.
pub const MAX_REQUEST: usize = 0x3fff;

/// Number of ids sent in one request.
pub const PRESENCE_BATCH: usize = 128;

/// `128^k`: the weight of the `k`-th seven-bit group of a varint.
pub open spec fn pow128(k: nat) -> nat
    decreases k,
{
    if k == 0 {
        1
    } else {
        128 * pow128((k - 1) as nat)
    }
}

/// The seven payload bits of a varint byte.
pub open spec fn group7(b: u8) -> nat {
    (b % 128) as nat
}

/// Reading a varint from `data` whose first byte is group `k` of the number:
/// the value of the groups read and how many bytes they took, or why the
/// bytes are refused.  A byte below 128 ends the number; a group whose
/// weighted value does not fit in `usize`, or a number longer than `usize`
/// has bits, is an overflow.
pub open spec fn varint_read(data: Seq<u8>, k: nat) -> Result<(nat, nat), PresenceError>
    decreases data.len(),
{
    if 7 * k >= usize::BITS {
        Err(PresenceError::VarintOverflow)
    } else if data.len() == 0 {
        Err(PresenceError::TruncatedVarint)
    } else if group7(data[0]) * pow128(k) > usize::MAX {
        Err(PresenceError::VarintOverflow)
    } else if data[0] < 128 {
        Ok((group7(data[0]) * pow128(k), 1))
    } else {
        match varint_read(data.drop_first(), k + 1) {
            Ok((v, n)) => Ok((group7(data[0]) * pow128(k) + v, n + 1)),
            Err(e) => Err(e),
        }
    }
}

/// The varint bytes of `v`: seven bits per byte, least significant group
/// first, the high bit set on every byte but the last.
pub open spec fn varint_encoding(v: nat) -> Seq<u8>
    decreases v,
{
    if v < 128 {
        seq![v as u8]
    } else {
        seq![((v % 128) + 128) as u8] + varint_encoding(v / 128)
    }
}

/// A length-delimited field with key `tag` at the start of `data`: its
/// contents and the bytes after it.
pub open spec fn field_read(data: Seq<u8>, tag: nat) -> Result<(Seq<u8>, Seq<u8>), PresenceError> {
    match varint_read(data, 0) {
        Err(e) => Err(e),
        Ok((t, n)) => if t != tag {
            Err(PresenceError::UnexpectedField)
        } else {
            let d1 = data.skip(n as int);
            match varint_read(d1, 0) {
                Err(e) => Err(e),
                Ok((size, m)) => {
                    let d2 = d1.skip(m as int);
                    if size > d2.len() {
                        Err(PresenceError::TruncatedResponse)
                    } else {
                        Ok((d2.take(size as int), d2.skip(size as int)))
                    }
                },
            }
        },
    }
}

/// The weight of bit `j` of a byte counted from the most significant one.
pub open spec fn bit_weight(j: int) -> int {
    if j == 0 {
        128
    } else if j == 1 {
        64
    } else if j == 2 {
        32
    } else if j == 3 {
        16
    } else if j == 4 {
        8
    } else if j == 5 {
        4
    } else if j == 6 {
        2
    } else {
        1
    }
}

/// Bit `j` of `b`, counted from the most significant bit.
pub open spec fn msb_bit(b: u8, j: int) -> bool {
    ((b as int) / bit_weight(j)) % 2 == 1
}

/// The presence states carried by `states` for `count` ids: id `i` is
/// online when bit `i % 8` (most significant first) of byte `i / 8` is set.
pub open spec fn bitmap_states(states: Seq<u8>, count: nat) -> Seq<bool> {
    Seq::new(count, |i: int| msb_bit(states[i / 8], i % 8))
}

/// What a reply to a query for `count` ids means: one state per id, or why
/// the reply is refused.  The reply must be exactly one `online_response`
/// field that holds exactly one `states` field of `ceil(count / 8)` bytes.
pub open spec fn decode_spec(data: Seq<u8>, count: nat) -> Result<Seq<bool>, PresenceError> {
    match field_read(data, RESPONSE_TAG as nat) {
        Err(e) => Err(e),
        Ok((response, rest)) => if rest.len() != 0 {
            Err(PresenceError::TrailingData)
        } else {
            match field_read(response, STATES_TAG as nat) {
                Err(e) => Err(e),
                Ok((states, rest2)) => if rest2.len() != 0 || states.len() != (count + 7) / 8 {
                    Err(PresenceError::InvalidBitmap)
                } else {
                    Ok(bitmap_states(states, count))
                },
            }
        },
    }
}

/// A length-delimited field: key, length, contents.
pub open spec fn field_encoding(tag: nat, value: Seq<u8>) -> Seq<u8> {
    varint_encoding(tag) + varint_encoding(value.len()) + value
}

/// The `peers` fields of an `OnlineRequest` for the ids whose UTF-8 bytes are `ids`.
pub open spec fn peers_encoding(ids: Seq<Seq<u8>>) -> Seq<u8>
    decreases ids.len(),
{
    if ids.len() == 0 {
        Seq::empty()
    } else {
        peers_encoding(ids.drop_last()) + field_encoding(PEER_TAG as nat, ids.last())
    }
}

/// The UTF-8 bytes of each id.
pub open spec fn id_bytes(ids: Seq<String>) -> Seq<Seq<u8>> {
    ids.map_values(|s: String| encode_utf8(s@))
}

/// The rendezvous message that asks hbbs which of `ids` are online.
pub open spec fn request_payload(ids: Seq<Seq<u8>>) -> Seq<u8> {
    field_encoding(REQUEST_TAG as nat, peers_encoding(ids))
}

/// The two-byte frame header that announces a payload of `len` bytes.
pub open spec fn frame_header(len: nat) -> Seq<u8> {
    seq![((4 * len + 1) % 256) as u8, ((4 * len + 1) / 256) as u8]
}

/// Concrete weights of the varint groups that fit in a `usize`.
proof fn lemma_pow128_values()
    ensures
        pow128(0) == 1,
        pow128(1) == 0x80,
        pow128(2) == 0x4000,
        pow128(3) == 0x20_0000,
        pow128(4) == 0x1000_0000,
        pow128(5) == 0x8_0000_0000,
        pow128(6) == 0x400_0000_0000,
        pow128(7) == 0x2_0000_0000_0000,
        pow128(8) == 0x100_0000_0000_0000,
        pow128(9) == 0x8000_0000_0000_0000,
        pow128(10) == 0x40_0000_0000_0000_0000,
{
    reveal_with_fuel(pow128, 11);
}

/// A group that passes the overflow check can be added to the groups read
/// before it without overflow; the weight of the next group fits too.
proof fn lemma_group_fits(k: nat, c: nat, value: nat)
    requires
        7 * k < usize::BITS,
        c < 128,
        value < pow128(k),
    ensures
        0 < pow128(k) <= usize::MAX,
        (c <= usize::MAX as nat / pow128(k)) <==> (c * pow128(k) <= usize::MAX),
        c * pow128(k) <= usize::MAX ==> value + c * pow128(k) <= usize::MAX,
        7 * (k + 1) < usize::BITS ==> pow128(k + 1) <= usize::MAX,
        pow128(k + 1) == 128 * pow128(k),
        value + c * pow128(k) < pow128(k + 1),
{
    lemma_pow128_values();
    assert(pow128(k + 1) == 128 * pow128(k));
    assert(usize::BITS == 32 || usize::BITS == 64);
    if usize::BITS == 32 {
        assert(usize::MAX == 0xffff_ffff);
        assert(k <= 4);
    } else {
        assert(usize::MAX == 0xffff_ffff_ffff_ffff);
        assert(k <= 9);
    }
    let p = pow128(k);
    if k == 0 { assert(p == 1); }
    else if k == 1 { assert(p == 0x80); }
    else if k == 2 { assert(p == 0x4000); }
    else if k == 3 { assert(p == 0x20_0000); }
    else if k == 4 { assert(p == 0x1000_0000); }
    else if k == 5 { assert(p == 0x8_0000_0000); }
    else if k == 6 { assert(p == 0x400_0000_0000); }
    else if k == 7 { assert(p == 0x2_0000_0000_0000); }
    else if k == 8 { assert(p == 0x100_0000_0000_0000); }
    else { assert(p == 0x8000_0000_0000_0000); }
}

/// The weights of the groups grow with their index.
proof fn lemma_pow128_monotonic(i: nat, j: nat)
    requires
        i <= j,
    ensures
        pow128(i) <= pow128(j),
    decreases j - i,
{
    if i < j {
        lemma_pow128_monotonic(i, (j - 1) as nat);
        assert(pow128(j) == 128 * pow128((j - 1) as nat));
    }
}

/// A group whose weight fits in `usize` starts below `usize::BITS`.
proof fn lemma_weight_fits_bits(j: nat)
    requires
        pow128(j) <= usize::MAX,
    ensures
        7 * j < usize::BITS,
{
    lemma_pow128_values();
    assert(usize::BITS == 32 || usize::BITS == 64);
    if usize::BITS == 32 {
        if j >= 5 {
            lemma_pow128_monotonic(5, j);
        }
    } else {
        if j >= 10 {
            lemma_pow128_monotonic(10, j);
        }
    }
}

proof fn lemma_varint_read_encoding(v: nat, k: nat, rest: Seq<u8>)
    requires
        v * pow128(k) <= usize::MAX,
        k == 0 || v >= 1,
    ensures
        varint_read(varint_encoding(v) + rest, k) == Ok::<(nat, nat), PresenceError>(
            (v * pow128(k), varint_encoding(v).len()),
        ),
    decreases v,
{
    let data = varint_encoding(v) + rest;
    let p = pow128(k);
    assert(p >= 1) by {
        lemma_pow128_monotonic(0, k);
        reveal_with_fuel(pow128, 1);
    }
    assert(p <= usize::MAX) by {
        if k > 0 {
            assert(v * p >= p) by (nonlinear_arith)
                requires
                    v >= 1,
                    p >= 1,
            ;
        } else {
            reveal_with_fuel(pow128, 1);
        }
    }
    lemma_weight_fits_bits(k);
    if v < 128 {
        assert(data[0] == v as u8);
        assert(group7(data[0]) == v);
    } else {
        let b = ((v % 128) + 128) as u8;
        let w = v / 128;
        assert(data[0] == b);
        assert(group7(b) == v % 128);
        assert(data.drop_first() == varint_encoding(w) + rest);
        assert(v == 128 * w + v % 128);
        assert(pow128(k + 1) == 128 * p);
        assert((v % 128) * p <= v * p) by (nonlinear_arith)
            requires
                v % 128 <= v,
                p >= 1,
        ;
        assert(w * pow128(k + 1) + (v % 128) * p == v * p) by (nonlinear_arith)
            requires
                v == 128 * w + v % 128,
                pow128(k + 1) == 128 * p,
        ;
        assert(w >= 1);
        lemma_varint_read_encoding(w, k + 1, rest);
    }
}

/// The varint bytes of any `usize` read back as that number, and reading
/// stops right after them.
pub proof fn law_varint_roundtrip(v: usize, rest: Seq<u8>)
    ensures
        varint_read(varint_encoding(v as nat) + rest, 0) == Ok::<(nat, nat), PresenceError>(
            (v as nat, varint_encoding(v as nat).len()),
        ),
{
    assert(pow128(0) == 1) by {
        reveal_with_fuel(pow128, 1);
    }
    assert(v as nat * pow128(0) == v as nat);
    lemma_varint_read_encoding(v as nat, 0, rest);
}

/// `varint`: appends the varint bytes of `value` to `out`.
pub fn varint(value: usize, out: &mut Vec<u8>)
    ensures
        final(out)@ == old(out)@ + varint_encoding(value as nat),
{
    let mut value = value;
    let ghost start = value as nat;
    while value >= 128
        invariant
            old(out)@ + varint_encoding(start) == out@ + varint_encoding(value as nat),
        decreases value,
    {
        let ghost before = out@;
        out.push((value % 128) as u8 + 128);
        proof {
            assert(varint_encoding(value as nat) == seq![((value % 128) + 128) as u8]
                + varint_encoding((value / 128) as nat));
            assert(before + varint_encoding(value as nat) == out@ + varint_encoding(
                (value / 128) as nat,
            ));
        }
        value = value / 128;
    }
    out.push(value as u8);
    proof {
        assert(varint_encoding(value as nat) == seq![value as u8]);
    }
}

/// `read_varint`: reads a varint from the front of `data` and moves `data`
/// past it; on error `data` is left as it was.
pub fn read_varint(data: &mut &[u8]) -> (r: Result<usize, PresenceError>)
    ensures
        match varint_read(old(data)@, 0) {
            Ok((v, n)) => r == Ok::<usize, PresenceError>(v as usize) && v <= usize::MAX
                && final(data)@ == old(data)@.skip(n as int),
            Err(e) => r == Err::<usize, PresenceError>(e) && final(data)@ == old(data)@,
        },
{
    let bytes: &[u8] = *data;
    let ghost d = bytes@;
    let mut value: usize = 0;
    let mut mult: usize = 1;
    let mut k: usize = 0;
    proof {
        lemma_pow128_values();
        assert(d.skip(0) == d);
    }
    while 7 * k < usize::BITS as usize
        invariant
            d == bytes@,
            old(data)@ == d,
            data@ == d,
            7 * k <= usize::BITS + 6,
            7 * k < usize::BITS ==> mult as nat == pow128(k as nat),
            (value as nat) < pow128(k as nat),
            k <= d.len(),
            varint_read(d, 0) == match varint_read(d.skip(k as int), k as nat) {
                Ok((v, n)) => Ok::<(nat, nat), PresenceError>((value as nat + v, n + k as nat)),
                Err(e) => Err::<(nat, nat), PresenceError>(e),
            },
        decreases usize::BITS + 7 - 7 * k,
    {
        proof {
            lemma_group_fits(k as nat, 0, value as nat);
        }
        if k >= bytes.len() {
            proof {
                assert(d.skip(k as int).len() == 0);
            }
            return Err(PresenceError::TruncatedVarint);
        }
        let byte = bytes[k];
        let group = (byte % 128) as usize;
        proof {
            lemma_group_fits(k as nat, group as nat, value as nat);
            assert(d.skip(k as int)[0] == byte);
        }
        if group > usize::MAX / mult {
            return Err(PresenceError::VarintOverflow);
        }
        let next = value + group * mult;
        if byte < 128 {
            proof {
                assert(d.skip(k as int).drop_first() == d.skip(k + 1));
                assert(d.subrange(k + 1, d.len() as int) == d.skip(k + 1));
            }
            *data = slice_subrange(bytes, k + 1, bytes.len());
            return Ok(next);
        }
        proof {
            assert(d.skip(k as int).drop_first() == d.skip(k + 1));
        }
        value = next;
        k = k + 1;
        if 7 * k < usize::BITS as usize {
            mult = mult * 128;
        }
    }
    proof {
        assert(varint_read(d.skip(k as int), k as nat) == Err::<(nat, nat), PresenceError>(
            PresenceError::VarintOverflow,
        ));
    }
    Err(PresenceError::VarintOverflow)
}

/// `field`: reads the length-delimited field with key `tag` at the front of
/// `data`, returns its contents and moves `data` past it; on error `data`
/// is left as it was.
pub fn field<'a>(data: &mut &'a [u8], tag: usize) -> (r: Result<&'a [u8], PresenceError>)
    ensures
        match field_read(old(data)@, tag as nat) {
            Ok((value, rest)) => match r {
                Ok(v) => v@ == value && final(data)@ == rest,
                Err(_) => false,
            },
            Err(e) => r == Err::<&[u8], PresenceError>(e) && final(data)@ == old(data)@,
        },
{
    let mut cursor: &'a [u8] = *data;
    let t = match read_varint(&mut cursor) {
        Ok(t) => t,
        Err(e) => return Err(e),
    };
    if t != tag {
        return Err(PresenceError::UnexpectedField);
    }
    let size = match read_varint(&mut cursor) {
        Ok(size) => size,
        Err(e) => return Err(e),
    };
    if size > cursor.len() {
        return Err(PresenceError::TruncatedResponse);
    }
    let value = slice_subrange(cursor, 0, size);
    let rest = slice_subrange(cursor, size, cursor.len());
    proof {
        assert(cursor@.subrange(0, size as int) == cursor@.take(size as int));
        assert(cursor@.subrange(size as int, cursor@.len() as int) == cursor@.skip(size as int));
    }
    *data = rest;
    Ok(value)
}

/// Testing a bitmap byte with a shifted mask reads bit `j` from the most
/// significant end.
proof fn lemma_mask_bit(b: u8, j: u8)
    requires
        j < 8,
    ensures
        ((b & (128u8 >> j)) != 0) == msb_bit(b, j as int),
{
    if j == 0 {
        assert(((b & (128u8 >> 0u8)) != 0) == ((b / 128) % 2 == 1)) by (bit_vector);
    } else if j == 1 {
        assert(((b & (128u8 >> 1u8)) != 0) == ((b / 64) % 2 == 1)) by (bit_vector);
    } else if j == 2 {
        assert(((b & (128u8 >> 2u8)) != 0) == ((b / 32) % 2 == 1)) by (bit_vector);
    } else if j == 3 {
        assert(((b & (128u8 >> 3u8)) != 0) == ((b / 16) % 2 == 1)) by (bit_vector);
    } else if j == 4 {
        assert(((b & (128u8 >> 4u8)) != 0) == ((b / 8) % 2 == 1)) by (bit_vector);
    } else if j == 5 {
        assert(((b & (128u8 >> 5u8)) != 0) == ((b / 4) % 2 == 1)) by (bit_vector);
    } else if j == 6 {
        assert(((b & (128u8 >> 6u8)) != 0) == ((b / 2) % 2 == 1)) by (bit_vector);
    } else {
        assert(((b & (128u8 >> 7u8)) != 0) == (b % 2 == 1)) by (bit_vector);
    }
}

/// `decode`: the presence states that a reply gives for `count` queried
/// ids, or why the reply is refused.
pub fn decode(data: &[u8], count: usize) -> (r: Result<Vec<bool>, PresenceError>)
    requires
        count + 7 <= usize::MAX,
    ensures
        match decode_spec(data@, count as nat) {
            Ok(states) => match r {
                Ok(v) => v@ == states,
                Err(_) => false,
            },
            Err(e) => r == Err::<Vec<bool>, PresenceError>(e),
        },
{
    let mut data = data;
    let mut response = match field(&mut data, RESPONSE_TAG) {
        Ok(response) => response,
        Err(e) => return Err(e),
    };
    if data.len() != 0 {
        return Err(PresenceError::TrailingData);
    }
    let states = match field(&mut response, STATES_TAG) {
        Ok(states) => states,
        Err(e) => return Err(e),
    };
    if !(response.len() == 0 && states.len() == (count + 7) / 8) {
        return Err(PresenceError::InvalidBitmap);
    }
    let ghost expected = bitmap_states(states@, count as nat);
    let mut out: Vec<bool> = Vec::new();
    let mut i: usize = 0;
    while i < count
        invariant
            i <= count,
            count + 7 <= usize::MAX,
            states@.len() == (count + 7) / 8,
            expected == bitmap_states(states@, count as nat),
            out@ == expected.take(i as int),
        decreases count - i,
    {
        let byte = states[i / 8];
        let j = (i % 8) as u8;
        let bit = byte & (128u8 >> j) != 0;
        proof {
            lemma_mask_bit(byte, j);
        }
        out.push(bit);
        i = i + 1;
        assert(out@ == expected.take(i as int));
    }
    assert(expected.take(count as int) == expected);
    Ok(out)
}

/// The field key of a tag that fits in one byte is that byte.
proof fn lemma_small_varint(v: nat)
    requires
        v < 128,
    ensures
        varint_encoding(v) == seq![v as u8],
{
}

/// The request key 186 is written as the two bytes `0xba 0x01`.
proof fn lemma_request_key()
    ensures
        varint_encoding(REQUEST_TAG as nat) == seq![0xbau8, 1u8],
{
    reveal_with_fuel(varint_encoding, 3);
    assert(varint_encoding(1) == seq![1u8]);
    assert(seq![0xbau8] + seq![1u8] == seq![0xbau8, 1u8]);
}

/// `query` (request half): the framed bytes that ask hbbs which of `ids`
/// are online: a two-byte frame header, then the rendezvous message whose
/// `online_request` holds one `peers` field per id.  Refused when the
/// message would not fit in a two-byte frame.
pub fn online_request(ids: &[String]) -> (r: Result<Vec<u8>, PresenceError>)
    ensures
        request_payload(id_bytes(ids@)).len() <= MAX_REQUEST <==> r is Ok,
        r matches Ok(bytes) ==> bytes@ == frame_header(request_payload(id_bytes(ids@)).len())
            + request_payload(id_bytes(ids@)),
        r matches Err(e) ==> e == PresenceError::RequestTooLarge,
{
    let ghost all = id_bytes(ids@);
    let mut peers: Vec<u8> = Vec::new();
    let mut i: usize = 0;
    while i < ids.len()
        invariant
            i <= ids@.len(),
            all == id_bytes(ids@),
            peers@ == peers_encoding(all.take(i as int)),
        decreases ids@.len() - i,
    {
        let id: &str = ids[i].as_str();
        let bytes = id.as_bytes();
        let ghost before = peers@;
        let len = bytes.len();
        peers.push(PEER_TAG);
        let ghost after_tag = peers@;
        varint(len, &mut peers);
        let ghost after_len = peers@;
        extend_copied(&mut peers, bytes);
        proof {
            assert(after_tag == before + seq![PEER_TAG]);
            assert(len as nat == bytes@.len());
            assert(peers@ == before + seq![PEER_TAG] + varint_encoding(len as nat) + bytes@);
            lemma_small_varint(PEER_TAG as nat);
            assert(all[i as int] == encode_utf8(ids@[i as int]@));
            assert(bytes@ == all[i as int]);
            assert(all.take(i + 1).drop_last() == all.take(i as int));
            assert(all.take(i + 1).last() == all[i as int]);
            assert(peers@ == before + field_encoding(PEER_TAG as nat, all[i as int]));
        }
        i = i + 1;
    }
    proof {
        assert(all.take(ids@.len() as int) == all);
        lemma_request_key();
    }
    let mut payload: Vec<u8> = Vec::new();
    payload.push(0xba);
    payload.push(1);
    varint(peers.len(), &mut payload);
    let ghost peer_bytes = peers@;
    payload.append(&mut peers);
    assert(payload@ == request_payload(all));
    if payload.len() > MAX_REQUEST {
        return Err(PresenceError::RequestTooLarge);
    }
    let h: usize = payload.len() * 4 + 1;
    let mut framed: Vec<u8> = Vec::new();
    framed.push((h % 256) as u8);
    framed.push((h / 256) as u8);
    framed.append(&mut payload);
    Ok(framed)
}

/// `query` (reply half): how many bytes the reply frame header takes, from
/// its first byte.
pub fn frame_width(first: u8) -> (w: usize)
    ensures
        w == (first % 4) + 1,
{
    (first % 4) as usize + 1
}

/// The little-endian number held by four bytes.
pub open spec fn le_value(h: Seq<u8>) -> nat {
    (h[0] + 256 * h[1] + 65536 * h[2] + 16777216 * h[3]) as nat
}

/// `query` (reply half): the payload length that a reply frame header
/// announces (its unused bytes zero), refused above 4096 bytes.
pub fn frame_length(header: [u8; 4]) -> (r: Result<usize, PresenceError>)
    ensures
        le_value(header@) / 4 <= MAX_RESPONSE <==> r is Ok,
        r matches Ok(n) ==> n == le_value(header@) / 4,
        r matches Err(e) ==> e == PresenceError::ResponseTooLarge,
{
    let value: u32 = header[0] as u32 + 256 * header[1] as u32 + 65536 * header[2] as u32
        + 16777216 * header[3] as u32;
    let size = (value / 4) as usize;
    if size > MAX_RESPONSE {
        return Err(PresenceError::ResponseTooLarge);
    }
    Ok(size)
}

/// The ids of `batch` whose state among the first `n` states is online, in order.
pub open spec fn confirmed_upto(batch: Seq<Seq<char>>, states: Seq<bool>, n: nat) -> Seq<Seq<char>>
    decreases n,
{
    if n == 0 {
        Seq::empty()
    } else {
        let before = confirmed_upto(batch, states, (n - 1) as nat);
        if states[n - 1] {
            before.push(batch[n - 1])
        } else {
            before
        }
    }
}

/// The ids that a reply confirms online: id `i` when state `i` is set;
/// ids without a state are not confirmed.
pub open spec fn confirmed_ids(batch: Seq<Seq<char>>, states: Seq<bool>) -> Seq<Seq<char>> {
    confirmed_upto(batch, states, if batch.len() < states.len() { batch.len() } else { states.len() })
}

/// `refresh` (selection): the ids of a batch that the reply confirms online.
pub fn confirmed_online(batch: &[String], states: &[bool]) -> (r: Vec<String>)
    ensures
        r@.map_values(|s: String| s@) == confirmed_ids(batch@.map_values(|s: String| s@), states@),
{
    let ghost names = batch@.map_values(|s: String| s@);
    let n = if batch.len() < states.len() { batch.len() } else { states.len() };
    let mut r: Vec<String> = Vec::new();
    let mut i: usize = 0;
    while i < n
        invariant
            i <= n,
            n <= batch@.len(),
            n <= states@.len(),
            names == batch@.map_values(|s: String| s@),
            r@.map_values(|s: String| s@) == confirmed_upto(names, states@, i as nat),
        decreases n - i,
    {
        if states[i] {
            let ghost before = r@;
            r.push(batch[i].clone());
            assert(r@.map_values(|s: String| s@) == before.map_values(|s: String| s@).push(
                names[i as int],
            ));
        }
        i = i + 1;
    }
    r
}

/// `offline_sweeper` / `group_peers`: the hbbs address to query, when one
/// is configured (a value that is not blank).
pub fn presence_target(value: Option<String>) -> (r: Option<String>)
    ensures
        match value {
            Some(s) => if is_blank(s@) {
                r is None
            } else {
                r == Some(s)
            },
            None => r is None,
        },
{
    match value {
        Some(s) => {
            let chars = crate::text::chars_of(s.as_str());
            if blank(&chars) {
                None
            } else {
                Some(s)
            }
        },
        None => None,
    }
}

/// A length-delimited field reads back as its contents, and reading stops
/// right after it.
pub proof fn law_field_roundtrip(tag: usize, value: Seq<u8>, rest: Seq<u8>)
    requires
        value.len() <= usize::MAX,
    ensures
        field_read(field_encoding(tag as nat, value) + rest, tag as nat) == Ok::<
            (Seq<u8>, Seq<u8>),
            PresenceError,
        >((value, rest)),
{
    let len = value.len() as usize;
    let tail = varint_encoding(len as nat) + value + rest;
    let data = field_encoding(tag as nat, value) + rest;
    assert(data == varint_encoding(tag as nat) + tail);
    law_varint_roundtrip(tag, tail);
    assert(data.skip(varint_encoding(tag as nat).len() as int) == tail);
    let body = value + rest;
    assert(tail == varint_encoding(len as nat) + body);
    law_varint_roundtrip(len, body);
    assert(tail.skip(varint_encoding(len as nat).len() as int) == body);
    assert(body.take(value.len() as int) == value);
    assert(body.skip(value.len() as int) == rest);
}

proof fn lemma_peers_front(ids: Seq<Seq<u8>>)
    requires
        ids.len() > 0,
    ensures
        peers_encoding(ids) == field_encoding(PEER_TAG as nat, ids[0]) + peers_encoding(
            ids.drop_first(),
        ),
    decreases ids.len(),
{
    if ids.len() == 1 {
        assert(ids.drop_last().len() == 0);
        assert(ids.drop_first().len() == 0);
        assert(peers_encoding(ids.drop_last()) == Seq::<u8>::empty());
        assert(peers_encoding(ids.drop_first()) == Seq::<u8>::empty());
        assert(ids.last() == ids[0]);
    } else {
        lemma_peers_front(ids.drop_last());
        assert(ids.drop_last()[0] == ids[0]);
        assert(ids.drop_last().drop_first() == ids.drop_first().drop_last());
        assert(ids.drop_first().last() == ids.last());
    }
}

/// The request for `ids` reads back, by the same field reader that checks
/// replies, as one `online_request` field and nothing after it; its
/// contents begin with a `peers` field that carries the first id, followed
/// by the fields of the other ids.
pub proof fn law_request_roundtrip(ids: Seq<Seq<u8>>)
    requires
        peers_encoding(ids).len() <= usize::MAX,
    ensures
        field_read(request_payload(ids), REQUEST_TAG as nat) == Ok::<
            (Seq<u8>, Seq<u8>),
            PresenceError,
        >((peers_encoding(ids), Seq::empty())),
        ids.len() > 0 ==> field_read(peers_encoding(ids), PEER_TAG as nat) == Ok::<
            (Seq<u8>, Seq<u8>),
            PresenceError,
        >((ids[0], peers_encoding(ids.drop_first()))),
{
    let peers = peers_encoding(ids);
    law_field_roundtrip(REQUEST_TAG, peers, Seq::empty());
    assert(field_encoding(REQUEST_TAG as nat, peers) + Seq::<u8>::empty() == request_payload(ids));
    if ids.len() > 0 {
        lemma_peers_front(ids);
        let f = field_encoding(PEER_TAG as nat, ids[0]);
        assert(peers.len() >= ids[0].len()) by {
            assert(peers == f + peers_encoding(ids.drop_first()));
        }
        law_field_roundtrip(PEER_TAG as usize, ids[0], peers_encoding(ids.drop_first()));
    }
}

/// The frame header written before a request announces the request's
/// length: read back as a reply header (its unused bytes zero), its first
/// byte says it takes two bytes and its value is the length.
pub proof fn law_frame_header_roundtrip(len: nat)
    requires
        len <= MAX_REQUEST,
    ensures
        (frame_header(len)[0] % 4) + 1 == 2,
        le_value(frame_header(len) + seq![0u8, 0u8]) / 4 == len,
{
    let h = frame_header(len);
    let v = 4 * len + 1;
    assert(h[0] as int == v % 256);
    assert(h[1] as int == v / 256);
    assert((v % 256) % 4 == 1);
    assert(le_value(h + seq![0u8, 0u8]) == v);
}

/// Whether id `i` of `bits` is online (false past the end, for padding).
pub open spec fn state_at(bits: Seq<bool>, i: int) -> bool {
    0 <= i < bits.len() && bits[i]
}

/// `weight` when id `i` is online, else 0.
pub open spec fn weight_if(bits: Seq<bool>, i: int, weight: int) -> int {
    if state_at(bits, i) {
        weight
    } else {
        0
    }
}

/// Byte `b` of the states bitmap of `bits`: ids `8b..8b+8`, the first in
/// the most significant bit, missing ids as zero bits.
pub open spec fn packed_byte(bits: Seq<bool>, b: int) -> u8 {
    (weight_if(bits, 8 * b, 128) + weight_if(bits, 8 * b + 1, 64) + weight_if(bits, 8 * b + 2, 32)
        + weight_if(bits, 8 * b + 3, 16) + weight_if(bits, 8 * b + 4, 8) + weight_if(bits, 8 * b + 5, 4)
        + weight_if(bits, 8 * b + 6, 2) + weight_if(bits, 8 * b + 7, 1)) as u8
}

/// The states bitmap hbbs sends for `bits`: one bit per id, eight per byte.
pub open spec fn packed_states(bits: Seq<bool>) -> Seq<u8> {
    Seq::new((bits.len() + 7) / 8, |b: int| packed_byte(bits, b))
}

proof fn lemma_byte_bits(f0: bool, f1: bool, f2: bool, f3: bool, f4: bool, f5: bool, f6: bool, f7: bool, x: u8)
    by (bit_vector)
    requires
        x == (if f0 { 128u8 } else { 0u8 }) + (if f1 { 64u8 } else { 0u8 }) + (if f2 { 32u8 } else { 0u8 })
            + (if f3 { 16u8 } else { 0u8 }) + (if f4 { 8u8 } else { 0u8 }) + (if f5 { 4u8 } else { 0u8 })
            + (if f6 { 2u8 } else { 0u8 }) + (if f7 { 1u8 } else { 0u8 }),
    ensures
        (x / 128) % 2 == 1 <==> f0,
        (x / 64) % 2 == 1 <==> f1,
        (x / 32) % 2 == 1 <==> f2,
        (x / 16) % 2 == 1 <==> f3,
        (x / 8) % 2 == 1 <==> f4,
        (x / 4) % 2 == 1 <==> f5,
        (x / 2) % 2 == 1 <==> f6,
        (x / 1) % 2 == 1 <==> f7,
{
}

proof fn lemma_packed_bit(bits: Seq<bool>, i: int)
    requires
        0 <= i < bits.len(),
    ensures
        msb_bit(packed_byte(bits, i / 8), i % 8) == bits[i],
{
    let b = i / 8;
    let x = packed_byte(bits, b);
    let f0 = state_at(bits, 8 * b);
    let f1 = state_at(bits, 8 * b + 1);
    let f2 = state_at(bits, 8 * b + 2);
    let f3 = state_at(bits, 8 * b + 3);
    let f4 = state_at(bits, 8 * b + 4);
    let f5 = state_at(bits, 8 * b + 5);
    let f6 = state_at(bits, 8 * b + 6);
    let f7 = state_at(bits, 8 * b + 7);
    assert(x == (if f0 { 128u8 } else { 0u8 }) + (if f1 { 64u8 } else { 0u8 }) + (if f2 { 32u8 } else { 0u8 })
        + (if f3 { 16u8 } else { 0u8 }) + (if f4 { 8u8 } else { 0u8 }) + (if f5 { 4u8 } else { 0u8 })
        + (if f6 { 2u8 } else { 0u8 }) + (if f7 { 1u8 } else { 0u8 }));
    lemma_byte_bits(f0, f1, f2, f3, f4, f5, f6, f7, x);
    assert(i == 8 * b + i % 8);
}

proof fn lemma_varint_len(v: nat)
    ensures
        varint_encoding(v).len() <= v + 1,
    decreases v,
{
    if v >= 128 {
        lemma_varint_len(v / 128);
    }
}

/// Decoding the reply that carries the states of `bits` (one
/// `online_response` field holding one `states` field with the bitmap,
/// most significant bit first) gives those states back.
pub proof fn law_decode_roundtrip(bits: Seq<bool>)
    requires
        bits.len() + 7 <= usize::MAX,
    ensures
        decode_spec(
            field_encoding(RESPONSE_TAG as nat, field_encoding(STATES_TAG as nat, packed_states(bits))),
            bits.len(),
        ) == Ok::<Seq<bool>, PresenceError>(bits),
{
    let n = bits.len();
    let st = packed_states(bits);
    let m = st.len();
    let inner = field_encoding(STATES_TAG as nat, st);
    law_field_roundtrip(STATES_TAG, st, Seq::empty());
    assert(inner + Seq::<u8>::empty() == inner);
    lemma_varint_len(STATES_TAG as nat);
    lemma_varint_len(m);
    assert(inner.len() <= usize::MAX);
    law_field_roundtrip(RESPONSE_TAG, inner, Seq::empty());
    let data = field_encoding(RESPONSE_TAG as nat, inner);
    assert(data + Seq::<u8>::empty() == data);
    assert forall|i: int| 0 <= i < n implies #[trigger] bitmap_states(st, n)[i] == bits[i] by {
        lemma_packed_bit(bits, i);
        assert(i / 8 < m);
        assert(st[i / 8] == packed_byte(bits, i / 8));
    }
    assert(bitmap_states(st, n) =~= bits);
}

} // verus!
