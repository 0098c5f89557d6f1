//! Content fingerprints and scope ids.
//!
//! A scope id is a deterministic fingerprint of a component instance: the
//! checksum of the trimmed component body, in hexadecimal, followed by an
//! underscore and the usage ordinal in decimal. Two instances of one
//! definition therefore always carry different scope ids.

use vstd::prelude::*;

use crate::digits::{dec_spec, hex_spec, lemma_dec_injective, u64_to_dec, u64_to_hex};
use crate::text::{trim_spec, Text};

verus! {

/// The Adler-32 checksum of a text. The value is left uninterpreted: the
/// contracts promise only that it is a function of the characters.
pub uninterp spec fn adler32_of(s: Seq<char>) -> u32;

/// Relies on `adler::adler32_slice`: the checksum of the UTF-8 bytes of
/// these characters, a function of its input alone.
#[verifier::external_body]
pub(crate) fn adler32_text(s: &Text) -> (r: u32)
    ensures
        r == adler32_of(s@),
{
    let owned: String = s.iter().collect();
    adler::adler32_slice(owned.as_bytes())
}

/// Content checksum type.
pub struct Checksum {
    pub as_hex: Text,
    pub as_u32: u32,
}

/// Fingerprints a text.
pub fn checksum(slice: &Text) -> (r: Checksum)
    ensures
        r.as_u32 == adler32_of(slice@),
        r.as_hex@ == hex_spec(adler32_of(slice@) as nat),
{
    let as_u32 = adler32_text(slice);
    let as_hex = u64_to_hex(as_u32 as u64);
    Checksum { as_hex, as_u32 }
}

/// The scope id of one component instance: checksum of the trimmed body,
/// an underscore, then the usage ordinal.
pub open spec fn scope_id_spec(body: Seq<char>, ordinal: nat) -> Seq<char> {
    hex_spec(adler32_of(trim_spec(body)) as nat) + seq!['_'] + dec_spec(ordinal)
}

/// Builds the scope id for an instance of a component body.
pub fn scope_id(body: &Text, ordinal: u64) -> (r: Text)
    ensures
        r@ == scope_id_spec(body@, ordinal as nat),
{
    let trimmed = crate::text::trim(body);
    let hash = adler32_text(&trimmed);
    let mut r = u64_to_hex(hash as u64);
    r.push('_');
    let dec = u64_to_dec(ordinal);
    crate::text::push_all(&mut r, &dec);
    proof {
        assert(r@ =~= hex_spec(adler32_of(trim_spec(body@)) as nat) + seq!['_'] + dec_spec(
            ordinal as nat,
        ));
    }
    r
}

/// Two usages of one definition get different scope ids: the ordinal alone
/// already separates them, whatever the checksum does.
pub proof fn lemma_scope_id_unique(body: Seq<char>, o1: nat, o2: nat)
    requires
        o1 != o2,
    ensures
        scope_id_spec(body, o1) != scope_id_spec(body, o2),
{
    if scope_id_spec(body, o1) == scope_id_spec(body, o2) {
        let h = hex_spec(adler32_of(trim_spec(body)) as nat);
        let s1 = scope_id_spec(body, o1);
        let s2 = scope_id_spec(body, o2);
        assert(s1.skip(h.len() as int + 1) =~= dec_spec(o1));
        assert(s2.skip(h.len() as int + 1) =~= dec_spec(o2));
        lemma_dec_injective(o1, o2);
    }
}

/// The same body at the same ordinal always yields the same scope id, so a
/// recompile of unchanged input is stable.
pub proof fn lemma_scope_id_stable(b1: Seq<char>, b2: Seq<char>, o1: nat, o2: nat)
    requires
        b1 == b2,
        o1 == o2,
    ensures
        scope_id_spec(b1, o1) == scope_id_spec(b2, o2),
{
}

} // verus!
