//! The 32-bit status word that packs the GPS auxiliary fields.
//!
//! Layout: bit 0 = confirmed, bit 1 = valid, bit 2 = uploaded,
//! bits 8..=15 = satellite count, bits 16..=23 = fix status; all other bits zero.
use vstd::prelude::*;

verus! {

/// The integer a status word holds for the given fields.
pub open spec fn status_word(status: u8, nsats: u8, valid: bool, uploaded: bool, confirmed: bool) -> int {
    status as int * 65536 + nsats as int * 256 + (if uploaded { 4int } else { 0int }) + (if valid {
        2int
    } else {
        0int
    }) + (if confirmed { 1int } else { 0int })
}

/// The fields a status word holds, read from their fixed bit positions.
pub open spec fn status_fields(num: u32) -> (u8, u8, bool, bool, bool) {
    (
        ((num as int / 65536) % 256) as u8,
        ((num as int / 256) % 256) as u8,
        (num as int / 2) % 2 == 1,
        (num as int / 4) % 2 == 1,
        num as int % 2 == 1,
    )
}

/// A status word is canonical when every bit outside the defined fields is zero.
pub open spec fn canonical_word(num: u32) -> bool {
    num < 0x0100_0000 && (num as int / 8) % 32 == 0
}

/// Packs fix status, satellite count and the three flags into one word.
pub fn encode_fields(status: u8, nsats: u8, valid: bool, uploaded: bool, confirmed: bool) -> (r: u32)
    ensures
        r as int == status_word(status, nsats, valid, uploaded, confirmed),
        canonical_word(r),
{
    let v: u32 = if valid { 2 } else { 0 };
    let u: u32 = if uploaded { 4 } else { 0 };
    let c: u32 = if confirmed { 1 } else { 0 };
    status as u32 * 65536 + nsats as u32 * 256 + u + v + c
}

/// Unpacks a status word into `(status, nsats, valid, uploaded, confirmed)`.
/// Bits outside the defined fields are ignored.
pub fn decode_fields(num: u32) -> (r: (u8, u8, bool, bool, bool))
    ensures
        r == status_fields(num),
{
    let status = ((num / 65536) % 256) as u8;
    let nsats = ((num / 256) % 256) as u8;
    let valid = (num / 2) % 2 == 1;
    let uploaded = (num / 4) % 2 == 1;
    let confirmed = num % 2 == 1;
    (status, nsats, valid, uploaded, confirmed)
}

/// Decoding an encoded word gives back exactly the fields that were packed.
pub proof fn lemma_decode_encode(status: u8, nsats: u8, valid: bool, uploaded: bool, confirmed: bool)
    ensures
        status_word(status, nsats, valid, uploaded, confirmed) <= u32::MAX,
        status_fields(status_word(status, nsats, valid, uploaded, confirmed) as u32) == (
            status,
            nsats,
            valid,
            uploaded,
            confirmed,
        ),
{
    let low = (if uploaded { 4int } else { 0int }) + (if valid { 2int } else { 0int }) + (if confirmed {
        1int
    } else {
        0int
    });
    let w = status_word(status, nsats, valid, uploaded, confirmed);
    assert(w == status as int * 65536 + nsats as int * 256 + low);
    assert(0 <= low < 8);
    assert(w / 65536 == status as int) by (nonlinear_arith)
        requires
            w == status as int * 65536 + nsats as int * 256 + low,
            0 <= low < 8,
            0 <= nsats < 256,
            0 <= status < 256,
    ;
    assert(w / 256 == status as int * 256 + nsats as int) by (nonlinear_arith)
        requires
            w == status as int * 65536 + nsats as int * 256 + low,
            0 <= low < 8,
            0 <= nsats < 256,
    ;
    assert((status as int * 256 + nsats as int) % 256 == nsats as int) by (nonlinear_arith)
        requires
            0 <= nsats < 256,
    ;
    assert(w / 2 == status as int * 32768 + nsats as int * 128 + low / 2);
    assert(w / 4 == status as int * 16384 + nsats as int * 64 + low / 4);
    assert(w % 2 == low % 2);
}

/// Encoding the fields of a canonical word rebuilds that very word.
pub proof fn lemma_encode_decode(num: u32)
    requires
        canonical_word(num),
    ensures
        ({
            let (s, n, v, u, c) = status_fields(num);
            status_word(s, n, v, u, c) == num as int
        }),
{
    let x = num as int;
    assert(x == (x / 65536) * 65536 + ((x / 256) % 256) * 256 + ((x / 4) % 2) * 4 + ((x / 2) % 2) * 2
        + x % 2) by (nonlinear_arith)
        requires
            0 <= x < 0x0100_0000,
            (x / 8) % 32 == 0,
    ;
}

} // verus!
