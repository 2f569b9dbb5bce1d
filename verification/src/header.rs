//! The packed header word of a record.
//!
//! Every record starts with one pointer-sized word that stores the payload
//! length together with the static/dynamic discriminant: the length is kept
//! shifted up by one bit and the low bit distinguishes the two
//! representations (`0` = static, `1` = dynamic). Packing both into one word
//! bounds the representable length to half the range of `usize`; lengths
//! beyond that bound are rejected before encoding.

use vstd::prelude::*;

verus! {

/// Largest payload length that the packed header word can encode.
pub const MAX_RECORD_LEN: usize = usize::MAX / 2;

/// The packed (length, discriminant) header word.
///
/// The wrapped word is `2 * length + flag`, where the flag bit is `0` for a
/// static record and `1` for a dynamic one.
#[derive(Clone, Copy, Debug)]
pub struct LenFlags(pub usize);

/// The packed word that encodes a payload length and a discriminant.
pub open spec fn spec_pack(len: nat, is_static: bool) -> nat {
    2 * len + if is_static {
        0nat
    } else {
        1nat
    }
}

impl LenFlags {
    /// The payload length stored in this header word.
    pub open spec fn spec_len(self) -> nat {
        (self.0 / 2) as nat
    }

    /// Whether this header word marks a static record.
    pub open spec fn spec_is_static(self) -> bool {
        self.0 % 2 == 0
    }

    /// The payload length stored in this header word.
    pub fn len(self) -> (r: usize)
        ensures
            r == self.spec_len(),
    {
        self.0 / 2
    }

    /// Whether this header word marks a static record.
    pub fn is_static(self) -> (r: bool)
        ensures
            r == self.spec_is_static(),
    {
        self.0 % 2 == 0
    }

    /// Encode a length and a discriminant, rejecting lengths too large for
    /// the packed representation.
    pub fn from_len_static(l: usize, is_static: bool) -> (r: Option<LenFlags>)
        ensures
            (r is Some) <==> l <= MAX_RECORD_LEN,
            r matches Some(lf) ==> {
                &&& lf.spec_len() == l
                &&& lf.spec_is_static() == is_static
                &&& lf.0 == spec_pack(l as nat, is_static)
            },
    {
        match l.checked_mul(2) {
            Some(doubled) => {
                let flag: usize = if is_static {
                    0
                } else {
                    1
                };
                Some(LenFlags(doubled + flag))
            },
            None => None,
        }
    }

    /// Encode a length already known to be in range.
    pub fn from_len_static_raw(l: usize, is_static: bool) -> (r: LenFlags)
        requires
            l <= MAX_RECORD_LEN,
        ensures
            r.spec_len() == l,
            r.spec_is_static() == is_static,
            r.0 == spec_pack(l as nat, is_static),
    {
        let flag: usize = if is_static {
            0
        } else {
            1
        };
        LenFlags(l * 2 + flag)
    }
}

/// Decoding recovers exactly what was packed: for every length within range
/// and either discriminant, the packed word decodes to that length and that
/// discriminant.
pub proof fn lemma_pack_round_trip(l: nat, is_static: bool)
    requires
        l <= usize::MAX / 2,
    ensures
        LenFlags(spec_pack(l, is_static) as usize).spec_len() == l,
        LenFlags(spec_pack(l, is_static) as usize).spec_is_static() == is_static,
{
}

/// The packed encoding is injective: equal words mean equal lengths and
/// equal discriminants.
pub proof fn lemma_pack_injective(l1: nat, s1: bool, l2: nat, s2: bool)
    requires
        spec_pack(l1, s1) == spec_pack(l2, s2),
    ensures
        l1 == l2,
        s1 == s2,
{
}

} // verus!
