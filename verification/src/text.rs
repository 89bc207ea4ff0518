//! Label text rules.

use vstd::prelude::*;
use vstd::std_specs::iter::IteratorSpec;

verus! {

/// Whether `c` has the Unicode `White_Space` property (what `char::is_whitespace` tests).
pub open spec fn is_unicode_whitespace(c: char) -> bool {
    let u = c as u32;
    (0x09 <= u <= 0x0D) || u == 0x20 || u == 0x85 || u == 0xA0 || u == 0x1680 || (0x2000 <= u
        <= 0x200A) || u == 0x2028 || u == 0x2029 || u == 0x202F || u == 0x205F || u == 0x3000
}

/// Whether `c` has the Unicode `White_Space` property.
pub fn char_is_whitespace(c: char) -> (whitespace: bool)
    ensures
        whitespace == is_unicode_whitespace(c),
{
    let u = c as u32;
    (0x09 <= u && u <= 0x0D) || u == 0x20 || u == 0x85 || u == 0xA0 || u == 0x1680 || (0x2000
        <= u && u <= 0x200A) || u == 0x2028 || u == 0x2029 || u == 0x202F || u == 0x205F || u
        == 0x3000
}

/// A label that is empty once surrounding whitespace is trimmed: every character is whitespace.
pub open spec fn is_blank(label: Seq<char>) -> bool {
    forall|i: int| 0 <= i < label.len() ==> is_unicode_whitespace(#[trigger] label[i])
}

/// Whether the label is empty after trimming surrounding whitespace.
pub fn trims_to_empty(label: &str) -> (blank: bool)
    ensures
        blank == is_blank(label@),
{
    let mut chars = label.chars();
    let ghost mut seen: int = 0;
    proof {
        assert(label@.skip(0) =~= label@);
    }
    loop
        invariant
            0 <= seen <= label@.len(),
            chars.obeys_prophetic_iter_laws(),
            chars.remaining() == label@.skip(seen),
            forall|i: int| 0 <= i < seen ==> is_unicode_whitespace(#[trigger] label@[i]),
        decreases label@.len() - seen,
    {
        let ghost before = chars.remaining();
        match chars.next() {
            None => {
                proof {
                    assert(before.len() == 0);
                    assert(seen == label@.len());
                }
                return true;
            },
            Some(c) => {
                proof {
                    assert(before.len() > 0);
                    assert(c == label@[seen]);
                    assert(chars.remaining() =~= label@.skip(seen + 1));
                }
                if !char_is_whitespace(c) {
                    return false;
                }
                proof {
                    seen = seen + 1;
                }
            },
        }
    }
}

} // verus!
