//! The version reply and the capability tag inside it.
//!
//! The tag stands between the first `[Arduino:` of the reply and the first
//! `]` after it.

use vstd::prelude::*;
use vstd::slice::slice_subrange;
use vstd::string::StringSliceAdditionalSpecFns;
use crate::bytes::{absent, find, first_occurrence, occurs_at};
use crate::error::{Error, Violation};
use crate::feats::{all_recognized, decoded, first_unrecognized, recognized, Feats};

verus! {

/// The marker that opens a capability tag.
pub const FEATS_PREFIX: &'static str = "[Arduino:";

/// The marker that closes a capability tag.
pub const FEATS_SUFFIX: &'static str = "]";

/// The opening marker as bytes.
pub open spec fn prefix() -> Seq<u8> {
    FEATS_PREFIX.spec_bytes()
}

/// The closing marker as bytes.
pub open spec fn suffix() -> Seq<u8> {
    FEATS_SUFFIX.spec_bytes()
}

/// Whether the capability tag of `version` is the bytes from `start` up to `end`:
/// the first opening marker ends at `start`, and the first closing marker
/// after it begins at `end`.
pub open spec fn tag_between(version: Seq<u8>, start: int, end: int) -> bool {
    &&& first_occurrence(version, prefix(), 0, start - prefix().len())
    &&& first_occurrence(version, suffix(), start, end)
}

/// Whether `version` has an opening marker and no closing marker after the
/// first one.
pub open spec fn unclosed(version: Seq<u8>) -> bool {
    exists|at: int|
        first_occurrence(version, prefix(), 0, at) && absent(
            version,
            suffix(),
            at + prefix().len(),
        )
}

/// What extracting the tag of a version reply gives.
pub open spec fn extracts(version: Seq<u8>, r: Result<Seq<u8>, Violation>) -> bool {
    match r {
        Ok(tag) => exists|start: int, end: int|
            tag_between(version, start, end) && tag == version.subrange(start, end),
        Err(Violation::MissingPrefix) => absent(version, prefix(), 0),
        Err(Violation::MissingSuffix) => unclosed(version),
        Err(_) => false,
    }
}

/// What reading the capabilities out of a version reply gives.
pub open spec fn negotiates(version: Seq<u8>, r: Result<Feats, Violation>) -> bool {
    match r {
        Ok(feats) => exists|tag: Seq<u8>|
            extracts(version, Ok(tag)) && all_recognized(tag) && feats == decoded(tag),
        Err(Violation::UnknownCapability(b)) => exists|tag: Seq<u8>, i: int|
            extracts(version, Ok(tag)) && first_unrecognized(tag, i) && tag[i] == b,
        Err(e) => extracts(version, Err(e)),
    }
}

/// Extracts the capability tag from a version reply.
pub fn capability_tag(version: &[u8]) -> (r: Result<&[u8], Violation>)
    ensures
        extracts(
            version@,
            match r {
                Ok(tag) => Ok(tag@),
                Err(e) => Err(e),
            },
        ),
{
    let opening = FEATS_PREFIX.as_bytes();
    let closing = FEATS_SUFFIX.as_bytes();
    match find(version, opening, 0) {
        None => Err(Violation::MissingPrefix),
        Some(at) => {
            assert(occurs_at(version@, opening@, at as int));
            assert(version@.len() == version.len());
            let start: usize = at + opening.len();
            match find(version, closing, start) {
                None => {
                    assert(first_occurrence(version@, prefix(), 0, at as int));
                    assert(unclosed(version@));
                    Err(Violation::MissingSuffix)
                },
                Some(end) => {
                    assert(occurs_at(version@, closing@, end as int));
                    assert(tag_between(version@, start as int, end as int));
                    Ok(slice_subrange(version, start, end))
                },
            }
        },
    }
}

/// Reads the capability set out of a version reply.
pub fn parse_version(version: &[u8]) -> (r: Result<Feats, Violation>)
    ensures
        negotiates(version@, r),
{
    match capability_tag(version) {
        Err(e) => Err(e),
        Ok(tag) => match Feats::decode(tag) {
            Ok(feats) => Ok(feats),
            Err(e) => Err(Violation::UnknownCapability(e.0)),
        },
    }
}

/// A pattern has at most one first occurrence.
pub proof fn lemma_first_occurrence_unique(
    text: Seq<u8>,
    pattern: Seq<u8>,
    from: int,
    a: int,
    b: int,
)
    requires
        first_occurrence(text, pattern, from, a),
        first_occurrence(text, pattern, from, b),
    ensures
        a == b,
{
    if a < b {
        assert(!occurs_at(text, pattern, a));
    }
    if b < a {
        assert(!occurs_at(text, pattern, b));
    }
}

/// Where the tag of an outcome begins and ends; the end is of no account
/// for an outcome without a closing marker, and neither is for one without
/// an opening marker.
spec fn bounds(version: Seq<u8>, r: Result<Seq<u8>, Violation>) -> (int, int) {
    match r {
        Ok(tag) => choose|start: int, end: int|
            tag_between(version, start, end) && tag == version.subrange(start, end),
        Err(Violation::MissingSuffix) => {
            let at = choose|at: int|
                first_occurrence(version, prefix(), 0, at) && absent(
                    version,
                    suffix(),
                    at + prefix().len(),
                );
            (at + prefix().len(), -1)
        },
        Err(_) => (-1, -1),
    }
}

/// A version reply has one outcome: whatever meets the description of the
/// extraction is the same tag, or the same violation.
pub proof fn lemma_extraction_unique(
    version: Seq<u8>,
    a: Result<Seq<u8>, Violation>,
    b: Result<Seq<u8>, Violation>,
)
    requires
        extracts(version, a),
        extracts(version, b),
    ensures
        a == b,
{
    let (sa, ea) = bounds(version, a);
    let (sb, eb) = bounds(version, b);
    let opened_a = a is Ok || a == Err::<Seq<u8>, Violation>(Violation::MissingSuffix);
    let opened_b = b is Ok || b == Err::<Seq<u8>, Violation>(Violation::MissingSuffix);
    if opened_a {
        assert(occurs_at(version, prefix(), sa - prefix().len()));
    }
    if opened_b {
        assert(occurs_at(version, prefix(), sb - prefix().len()));
    }
    if opened_a && opened_b {
        lemma_first_occurrence_unique(
            version,
            prefix(),
            0,
            sa - prefix().len(),
            sb - prefix().len(),
        );
        if a is Ok {
            assert(occurs_at(version, suffix(), ea));
        }
        if b is Ok {
            assert(occurs_at(version, suffix(), eb));
        }
        if a is Ok && b is Ok {
            lemma_first_occurrence_unique(version, suffix(), sa, ea, eb);
        }
    }
}

/// A tag that holds no `]`, set between the two markers, is what extraction
/// gives, whatever follows the closing marker and whatever text without a
/// `[` comes before the opening one.
pub proof fn lemma_tag_between_markers(before: Seq<u8>, tag: Seq<u8>, after: Seq<u8>)
    requires
        !before.contains(91u8),
        !tag.contains(93u8),
    ensures
        extracts(before + prefix() + tag + suffix() + after, Ok(tag)),
{
    reveal_strlit("[Arduino:");
    reveal_strlit("]");
    vstd::string::is_ascii_spec_bytes(FEATS_PREFIX);
    vstd::string::is_ascii_spec_bytes(FEATS_SUFFIX);
    let text = before + prefix() + tag + suffix() + after;
    let open = before.len() as int;
    let start = open + prefix().len();
    let end = start + tag.len();
    assert(prefix().len() == 9 && prefix()[0] == 91u8);
    assert(suffix() =~= seq![93u8]);
    assert(text.subrange(open, start) =~= prefix());
    assert(text.subrange(end, end + 1) =~= suffix());
    assert(text.subrange(start, end) =~= tag);
    assert forall|k: int| 0 <= k < open implies !occurs_at(text, prefix(), k) by {
        if occurs_at(text, prefix(), k) {
            assert(text.subrange(k, k + prefix().len())[0] == prefix()[0]);
            assert(before[k] == 91u8);
        }
    }
    assert forall|k: int| start <= k < end implies !occurs_at(text, suffix(), k) by {
        if occurs_at(text, suffix(), k) {
            assert(text.subrange(k, k + suffix().len())[0] == suffix()[0]);
            assert(tag[k - start] == 93u8);
        }
    }
    assert(tag_between(text, start, end));
}

/// A version reply states one capability set, or has one violation.
pub proof fn lemma_negotiation_unique(
    version: Seq<u8>,
    a: Result<Feats, Violation>,
    b: Result<Feats, Violation>,
)
    requires
        negotiates(version, a),
        negotiates(version, b),
    ensures
        a == b,
{
    let tag_a = tag_behind(version, a);
    let tag_b = tag_behind(version, b);
    lemma_extraction_unique(version, tag_a, tag_b);
    if let Err(Violation::UnknownCapability(x)) = a {
        if let Err(Violation::UnknownCapability(y)) = b {
            let tag = tag_a->Ok_0;
            let i = choose|i: int| first_unrecognized(tag, i) && tag[i] == x;
            let j = choose|j: int| first_unrecognized(tag, j) && tag[j] == y;
            if i < j {
                assert(recognized(tag[i]));
            }
            if j < i {
                assert(recognized(tag[j]));
            }
        }
    }
}

/// What extraction gave on the way to an outcome of the negotiation.
spec fn tag_behind(version: Seq<u8>, r: Result<Feats, Violation>) -> Result<Seq<u8>, Violation> {
    match r {
        Ok(feats) => Ok(
            choose|tag: Seq<u8>|
                extracts(version, Ok(tag)) && all_recognized(tag) && feats == decoded(tag),
        ),
        Err(Violation::UnknownCapability(b)) => Ok(
            choose|tag: Seq<u8>|
                extracts(version, Ok(tag)) && exists|i: int|
                    first_unrecognized(tag, i) && tag[i] == b,
        ),
        Err(e) => Err(e),
    }
}

} // verus!
