//! Cursor movement over extended grapheme clusters.

use unicode_segmentation::UnicodeSegmentation;
use vstd::prelude::*;
use vstd::utf8::is_char_boundary;
use vstd::string::StringSliceAdditionalSpecFns;

verus! {

/// The byte offsets at which the extended grapheme clusters of a text start,
/// in order.
pub uninterp spec fn grapheme_starts_of(text: Seq<char>) -> Seq<usize>;

/// What holds of the cluster starts of any text: they rise strictly, each is a
/// character boundary inside the text, and a non-empty text has one at 0.
pub open spec fn starts_well_formed(text: &str, starts: Seq<usize>) -> bool {
    &&& forall|i: int, j: int| 0 <= i < j < starts.len() ==> starts[i] < starts[j]
    &&& forall|i: int|
        0 <= i < starts.len() ==> starts[i] < text.spec_bytes().len() && is_char_boundary(
            text.spec_bytes(),
            starts[i] as int,
        )
    &&& (text@.len() > 0 ==> starts.len() > 0 && starts[0] == 0)
}

/// The number of terminal columns a text takes.
pub uninterp spec fn display_width_of(text: Seq<char>) -> usize;

/// Relies on `UnicodeWidthStr::width`: the columns the text takes on a
/// terminal; an empty text takes none.
#[verifier::external_body]
pub(crate) fn display_width(text: &str) -> (r: usize)
    ensures
        r == display_width_of(text@),
        text@.len() == 0 ==> r == 0,
{
    unicode_width::UnicodeWidthStr::width(text)
}

/// `r` is the greatest start below `cursor`, or 0 when there is none.
pub open spec fn is_prev_boundary(starts: Seq<usize>, cursor: usize, r: usize) -> bool {
    &&& (cursor == 0 ==> r == 0)
    &&& (r == 0 || (r < cursor && starts.contains(r)))
    &&& forall|i: int| 0 <= i < starts.len() && starts[i] < cursor ==> starts[i] <= r
}

/// `r` is the least start above `cursor`, or the end `len` of the text when
/// there is none; a cursor at or past the end goes to the end.
pub open spec fn is_next_boundary(starts: Seq<usize>, len: int, cursor: usize, r: usize) -> bool {
    &&& (cursor >= len ==> r == len)
    &&& (cursor < len ==> cursor < r)
    &&& r <= len
    &&& (r == len || starts.contains(r))
    &&& forall|i: int| 0 <= i < starts.len() && starts[i] > cursor ==> starts[i] >= r
}

/// Relies on `UnicodeSegmentation::grapheme_indices` (extended clusters): the
/// offset of each cluster, which is a slice of the text, in order.
#[verifier::external_body]
fn grapheme_starts(text: &str) -> (r: Vec<usize>)
    ensures
        r@ == grapheme_starts_of(text@),
        starts_well_formed(text, r@),
{
    text.grapheme_indices(true).map(|(i, _)| i).collect()
}

/// The start of the grapheme cluster before `cursor`: the greatest cluster
/// start below it, or 0.
pub fn prev_grapheme_boundary(text: &str, cursor: usize) -> (r: usize)
    ensures
        is_prev_boundary(grapheme_starts_of(text@), cursor, r),
        r <= text.spec_bytes().len(),
        is_char_boundary(text.spec_bytes(), r as int),
{
    proof {
        vstd::utf8::encode_utf8_valid_utf8(text@);
        vstd::utf8::is_char_boundary_start_end_of_seq(text.spec_bytes());
    }
    if cursor == 0 {
        return 0;
    }
    let starts = grapheme_starts(text);
    let mut prev: usize = 0;
    let mut i: usize = 0;
    while i < starts.len() && starts[i] < cursor
        invariant
            starts@ == grapheme_starts_of(text@),
            starts_well_formed(text, starts@),
            i <= starts@.len(),
            prev == 0 || (prev < cursor && starts@.contains(prev)),
            forall|k: int| 0 <= k < i ==> starts@[k] < cursor && starts@[k] <= prev,
        decreases starts.len() - i,
    {
        prev = starts[i];
        i = i + 1;
    }
    proof {
        assert forall|k: int|
            0 <= k < starts@.len() && starts@[k] < cursor implies starts@[k] <= prev by {
            if k >= i {
                assert(k == i || starts@[i as int] < starts@[k]);
            }
        }
        if prev != 0 {
            let k = choose|k: int| 0 <= k < starts@.len() && starts@[k] == prev;
            assert(is_char_boundary(text.spec_bytes(), starts@[k] as int));
        }
    }
    prev
}

/// The start of the grapheme cluster after `cursor`: the least cluster start
/// above it, or the end of the text.
pub fn next_grapheme_boundary(text: &str, cursor: usize) -> (r: usize)
    ensures
        is_next_boundary(grapheme_starts_of(text@), text.spec_bytes().len() as int, cursor, r),
        is_char_boundary(text.spec_bytes(), r as int),
{
    proof {
        vstd::utf8::encode_utf8_valid_utf8(text@);
        vstd::utf8::is_char_boundary_start_end_of_seq(text.spec_bytes());
    }
    let len = text.as_bytes().len();
    if cursor >= len {
        return len;
    }
    let starts = grapheme_starts(text);
    let mut i: usize = 0;
    while i < starts.len()
        invariant
            starts@ == grapheme_starts_of(text@),
            starts_well_formed(text, starts@),
            i <= starts@.len(),
            forall|k: int| 0 <= k < i ==> starts@[k] <= cursor,
        decreases starts.len() - i,
    {
        if starts[i] > cursor {
            let r = starts[i];
            proof {
                assert(starts@.contains(r));
                assert forall|k: int|
                    0 <= k < starts@.len() && starts@[k] > cursor implies starts@[k] >= r by {
                    if k < i {
                    } else {
                        assert(k == i || starts@[i as int] < starts@[k]);
                    }
                }
            }
            return r;
        }
        i = i + 1;
    }
    len
}

} // verus!
