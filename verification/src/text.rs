//! UTF-16 text as the system hands it over.

use vstd::prelude::*;

verus! {

/// UTF-16 decoding in which each unpaired surrogate becomes U+FFFD: a high surrogate
/// followed by a low one makes one character; any other surrogate makes U+FFFD and
/// decoding goes on with the next unit; every other unit is its own character.
pub open spec fn utf16_lossy(units: Seq<u16>) -> Seq<char>
    decreases units.len(),
{
    if units.len() == 0 {
        seq![]
    } else if 0xD800 <= units[0] < 0xDC00 && units.len() >= 2 && 0xDC00 <= units[1] < 0xE000 {
        seq![(0x1_0000 + (units[0] - 0xD800) * 0x400 + (units[1] - 0xDC00)) as char] + utf16_lossy(units.skip(2))
    } else if 0xD800 <= units[0] < 0xE000 {
        seq!['\u{FFFD}'] + utf16_lossy(units.skip(1))
    } else {
        seq![units[0] as char] + utf16_lossy(units.skip(1))
    }
}

/// Decodes UTF-16, each unpaired surrogate becoming U+FFFD.
/// Trusted: calls `String::from_utf16_lossy`, which its documentation describes as
/// decoding UTF-16 and replacing invalid data with U+FFFD, one replacement per unpaired
/// surrogate as `char::decode_utf16` reports them.
#[verifier::external_body]
pub(crate) fn decode_utf16_lossy(units: &[u16]) -> (s: String)
    ensures
        s@ == utf16_lossy(units@),
{
    String::from_utf16_lossy(units)
}

/// The units before the first NUL, or all of them when there is none.
pub open spec fn before_nul(units: Seq<u16>) -> Seq<u16> {
    if exists|i: int| 0 <= i < units.len() && units[i] == 0 && forall|j: int| 0 <= j < i ==> units[j] != 0 {
        units.take(choose|i: int| 0 <= i < units.len() && units[i] == 0 && forall|j: int| 0 <= j < i ==> units[j] != 0)
    } else {
        units
    }
}

/// Cuts a NUL-terminated UTF-16 buffer at its first NUL.
pub fn wide_prefix(units: &[u16]) -> (prefix: Vec<u16>)
    ensures
        prefix@ == before_nul(units@),
        forall|j: int| 0 <= j < prefix.len() ==> prefix@[j] != 0,
        prefix.len() <= units.len(),
        prefix@ == units@.take(prefix.len() as int),
        prefix.len() < units.len() ==> units@[prefix.len() as int] == 0,
{
    let mut prefix: Vec<u16> = Vec::new();
    let mut i: usize = 0;
    while i < units.len()
        invariant
            0 <= i <= units.len(),
            prefix@ == units@.take(i as int),
            forall|j: int| 0 <= j < i ==> units@[j] != 0,
        decreases units.len() - i,
    {
        if units[i] == 0 {
            proof {
                let k = choose|k: int| 0 <= k < units@.len() && units@[k] == 0 && forall|j: int| 0 <= j < k ==> units@[j] != 0;
                if k < i {
                    assert(units@[k] != 0);
                } else if k > i {
                    assert(units@[i as int] != 0);
                }
            }
            return prefix;
        }
        prefix.push(units[i]);
        i = i + 1;
        assert(prefix@ =~= units@.take(i as int));
    }
    proof {
        assert(units@.take(units.len() as int) =~= units@);
    }
    prefix
}

} // verus!
