//! The capability set that a bootloader reports about itself.
//!
//! The version reply carries a tag of single-letter codes, one for each
//! operation that the device supports. Decoding turns the tag into flags.

use vstd::prelude::*;
use vstd::string::StringSliceAdditionalSpecFns;

verus! {

/// The code of the identify-chip capability, `I`.
pub const CODE_IDENTIFY_CHIP: u8 = 73;

/// The code of the reset capability, `K`.
pub const CODE_RESET: u8 = 75;

/// The code of the chip-erase capability, `X`.
pub const CODE_CHIP_ERASE: u8 = 88;

/// The code of the write-buffer capability, `Y`.
pub const CODE_WRITE_BUFFER: u8 = 89;

/// The code of the checksum-buffer capability, `Z`.
pub const CODE_CHECKSUM_BUFFER: u8 = 90;

/// The operations that a device has said it supports.
#[derive(Clone, Copy, Debug, PartialEq, Eq, Structural)]
pub struct Feats {
    pub chip_erase: bool,
    pub write_buffer: bool,
    pub checksum_buffer: bool,
    pub identify_chip: bool,
    pub reset: bool,
}

/// A byte of a capability tag that is no capability code.
#[derive(Clone, Copy, Debug, PartialEq, Eq, Structural)]
pub struct ParseFeatsError(pub u8);

/// Whether `b` is one of the five capability codes.
pub open spec fn recognized(b: u8) -> bool {
    b == CODE_IDENTIFY_CHIP || b == CODE_RESET || b == CODE_CHIP_ERASE || b == CODE_WRITE_BUFFER
        || b == CODE_CHECKSUM_BUFFER
}

/// Whether every byte of `tag` is a capability code.
pub open spec fn all_recognized(tag: Seq<u8>) -> bool {
    forall|i: int| 0 <= i < tag.len() ==> recognized(#[trigger] tag[i])
}

/// Whether `i` is the place of the first byte of `tag` that is no capability code.
pub open spec fn first_unrecognized(tag: Seq<u8>, i: int) -> bool {
    &&& 0 <= i < tag.len()
    &&& !recognized(tag[i])
    &&& forall|j: int| 0 <= j < i ==> recognized(#[trigger] tag[j])
}

/// The capability set that a tag states: a capability is present exactly
/// when its code occurs in the tag, wherever and however often.
pub open spec fn decoded(tag: Seq<u8>) -> Feats {
    Feats {
        chip_erase: tag.contains(CODE_CHIP_ERASE),
        write_buffer: tag.contains(CODE_WRITE_BUFFER),
        checksum_buffer: tag.contains(CODE_CHECKSUM_BUFFER),
        identify_chip: tag.contains(CODE_IDENTIFY_CHIP),
        reset: tag.contains(CODE_RESET),
    }
}

/// What decoding a tag gives: the capability set, or the first byte that is
/// no capability code.
pub open spec fn decode_spec(tag: Seq<u8>, r: Result<Feats, ParseFeatsError>) -> bool {
    match r {
        Ok(feats) => all_recognized(tag) && feats == decoded(tag),
        Err(e) => exists|i: int| first_unrecognized(tag, i) && tag[i] == e.0,
    }
}

impl Feats {
    /// The set without any capability.
    pub open spec fn none() -> Feats {
        Feats {
            chip_erase: false,
            write_buffer: false,
            checksum_buffer: false,
            identify_chip: false,
            reset: false,
        }
    }

    /// A tag that states exactly this set, each code once.
    pub open spec fn tag(self) -> Seq<u8> {
        (if self.identify_chip { seq![CODE_IDENTIFY_CHIP] } else { Seq::empty() })
        + (if self.reset { seq![CODE_RESET] } else { Seq::empty() })
        + (if self.chip_erase { seq![CODE_CHIP_ERASE] } else { Seq::empty() })
        + (if self.write_buffer { seq![CODE_WRITE_BUFFER] } else { Seq::empty() })
        + (if self.checksum_buffer { seq![CODE_CHECKSUM_BUFFER] } else { Seq::empty() })
    }

    /// Decodes a capability tag given as bytes.
    pub fn decode(tag: &[u8]) -> (r: Result<Feats, ParseFeatsError>)
        ensures
            decode_spec(tag@, r),
    {
        let mut feats = Feats::default();
        let mut i: usize = 0;
        while i < tag.len()
            invariant
                i <= tag.len(),
                all_recognized(tag@.subrange(0, i as int)),
                feats == decoded(tag@.subrange(0, i as int)),
            decreases tag.len() - i,
        {
            let b = tag[i];
            let ghost seen = tag@.subrange(0, i as int);
            let ghost next = tag@.subrange(0, i + 1);
            assert(next =~= seen.push(b));
            assert(forall|c: u8| next.contains(c) <==> (seen.contains(c) || c == b)) by {
                assert forall|c: u8| next.contains(c) implies (seen.contains(c) || c == b) by {
                    let k = choose|k: int| 0 <= k < next.len() && next[k] == c;
                    if k < i {
                        assert(seen[k] == c);
                    }
                }
                assert forall|c: u8| (seen.contains(c) || c == b) implies next.contains(c) by {
                    if c == b {
                        assert(next[i as int] == c);
                    } else {
                        let k = choose|k: int| 0 <= k < seen.len() && seen[k] == c;
                        assert(next[k] == c);
                    }
                }
            }
            if b == CODE_IDENTIFY_CHIP {
                feats.identify_chip = true;
            } else if b == CODE_RESET {
                feats.reset = true;
            } else if b == CODE_CHIP_ERASE {
                feats.chip_erase = true;
            } else if b == CODE_WRITE_BUFFER {
                feats.write_buffer = true;
            } else if b == CODE_CHECKSUM_BUFFER {
                feats.checksum_buffer = true;
            } else {
                proof {
                    assert forall|j: int| 0 <= j < i implies recognized(#[trigger] tag@[j]) by {
                        assert(seen[j] == tag@[j]);
                    }
                    assert(first_unrecognized(tag@, i as int));
                }
                return Err(ParseFeatsError(b));
            }
            i += 1;
        }
        assert(tag@.subrange(0, i as int) =~= tag@);
        Ok(feats)
    }
}

/// Decoding depends on which codes a tag holds and on nothing else: two tags
/// of capability codes state the same set exactly when the same codes occur
/// in both, whatever their order and however often each is repeated.
pub proof fn lemma_decode_by_codes_alone(a: Seq<u8>, b: Seq<u8>)
    requires
        all_recognized(a),
        all_recognized(b),
    ensures
        decoded(a) == decoded(b) <==> a.to_set() == b.to_set(),
{
    if decoded(a) == decoded(b) {
        assert forall|c: u8| a.to_set().contains(c) == b.to_set().contains(c) by {
            if a.contains(c) {
                let k = choose|k: int| 0 <= k < a.len() && a[k] == c;
                assert(recognized(a[k]));
            }
            if b.contains(c) {
                let k = choose|k: int| 0 <= k < b.len() && b[k] == c;
                assert(recognized(b[k]));
            }
        }
        assert(a.to_set() =~= b.to_set());
    }
    if a.to_set() == b.to_set() {
        assert forall|c: u8| a.contains(c) == b.contains(c) by {
            assert(a.to_set().contains(c) == b.to_set().contains(c));
        }
    }
}

/// Every capability set is stated by some tag of capability codes: decoding
/// the tag of a set gives the set back.
pub proof fn lemma_every_set_has_a_tag(feats: Feats)
    ensures
        all_recognized(feats.tag()),
        decoded(feats.tag()) == feats,
{
    let i = if feats.identify_chip { seq![CODE_IDENTIFY_CHIP] } else { Seq::empty() };
    let k = if feats.reset { seq![CODE_RESET] } else { Seq::empty() };
    let x = if feats.chip_erase { seq![CODE_CHIP_ERASE] } else { Seq::empty() };
    let y = if feats.write_buffer { seq![CODE_WRITE_BUFFER] } else { Seq::empty() };
    let z = if feats.checksum_buffer { seq![CODE_CHECKSUM_BUFFER] } else { Seq::empty() };
    let tag = feats.tag();
    assert(tag == i + k + x + y + z);
    assert forall|c: u8| tag.contains(c) <==> (i.contains(c) || k.contains(c) || x.contains(c)
        || y.contains(c) || z.contains(c)) by {
        lemma_contains_of_concat(i + k + x + y, z, c);
        lemma_contains_of_concat(i + k + x, y, c);
        lemma_contains_of_concat(i + k, x, c);
        lemma_contains_of_concat(i, k, c);
    }
    assert forall|c: u8| i.contains(c) <==> (feats.identify_chip && c == CODE_IDENTIFY_CHIP) by {
        lemma_contains_of_optional(feats.identify_chip, CODE_IDENTIFY_CHIP, c);
    }
    assert forall|c: u8| k.contains(c) <==> (feats.reset && c == CODE_RESET) by {
        lemma_contains_of_optional(feats.reset, CODE_RESET, c);
    }
    assert forall|c: u8| x.contains(c) <==> (feats.chip_erase && c == CODE_CHIP_ERASE) by {
        lemma_contains_of_optional(feats.chip_erase, CODE_CHIP_ERASE, c);
    }
    assert forall|c: u8| y.contains(c) <==> (feats.write_buffer && c == CODE_WRITE_BUFFER) by {
        lemma_contains_of_optional(feats.write_buffer, CODE_WRITE_BUFFER, c);
    }
    assert forall|c: u8| z.contains(c) <==> (feats.checksum_buffer && c == CODE_CHECKSUM_BUFFER) by {
        lemma_contains_of_optional(feats.checksum_buffer, CODE_CHECKSUM_BUFFER, c);
    }
    assert forall|j: int| 0 <= j < tag.len() implies recognized(#[trigger] tag[j]) by {
        assert(tag.contains(tag[j]));
    }
}

/// The empty tag states the empty set.
pub proof fn lemma_empty_tag_is_empty_set()
    ensures
        all_recognized(Seq::<u8>::empty()),
        decoded(Seq::<u8>::empty()) == Feats::none(),
{
}

/// A byte occurs in a concatenation exactly when it occurs in one of the parts.
proof fn lemma_contains_of_concat(a: Seq<u8>, b: Seq<u8>, c: u8)
    ensures
        (a + b).contains(c) <==> (a.contains(c) || b.contains(c)),
{
    if (a + b).contains(c) {
        let k = choose|k: int| 0 <= k < (a + b).len() && (a + b)[k] == c;
        if k < a.len() {
            assert(a[k] == c);
        } else {
            assert(b[k - a.len()] == c);
        }
    }
    if a.contains(c) {
        let k = choose|k: int| 0 <= k < a.len() && a[k] == c;
        assert((a + b)[k] == c);
    }
    if b.contains(c) {
        let k = choose|k: int| 0 <= k < b.len() && b[k] == c;
        assert((a + b)[a.len() + k] == c);
    }
}

/// What a one-code or empty piece of a tag holds.
proof fn lemma_contains_of_optional(present: bool, code: u8, c: u8)
    ensures
        (if present { seq![code] } else { Seq::<u8>::empty() }).contains(c) <==> (present && c == code),
{
    if present {
        assert(seq![code][0] == code);
    }
}

impl Default for Feats {
    /// The set without any capability.
    fn default() -> (feats: Feats)
        ensures
            feats == Feats::none(),
    {
        Feats {
            chip_erase: false,
            write_buffer: false,
            checksum_buffer: false,
            identify_chip: false,
            reset: false,
        }
    }
}

impl core::str::FromStr for Feats {
    type Err = ParseFeatsError;

    /// Decodes a capability tag given as text.
    fn from_str(s: &str) -> (r: Result<Feats, ParseFeatsError>)
        ensures
            decode_spec(s.spec_bytes(), r),
    {
        Feats::decode(s.as_bytes())
    }
}

} // verus!
