//! Where an offset into a source text stands: its line and its column.

use vstd::prelude::*;
use vstd::string::StringSliceAdditionalSpecFns;
use vstd::utf8::{encode_utf8, encode_scalar};
use line_col::LineColLookup;

verus! {

/// The table that the `line-col` crate makes of a source text.
#[verifier::external_type_specification]
#[verifier::external_body]
pub struct ExLineColLookup<'source>(LineColLookup<'source>);

/// The bytes of the source text that a table was made of.
pub uninterp spec fn lookup_source(lookup: &LineColLookup) -> Seq<u8>;

/// The offset at which the line of an offset begins: behind the last line
/// feed before the offset, or at the start of the text.
pub open spec fn line_start(bytes: Seq<u8>, index: nat) -> nat
    decreases index,
{
    if index == 0 {
        0
    } else if index - 1 < bytes.len() && bytes[index - 1] == 10 {
        index
    } else {
        line_start(bytes, (index - 1) as nat)
    }
}

/// The number of the line of an offset, counted from one: one more than the
/// line feeds before the offset.
pub open spec fn line_number(bytes: Seq<u8>, index: nat) -> nat
    decreases index,
{
    if index == 0 {
        1
    } else if index - 1 < bytes.len() && bytes[index - 1] == 10 {
        line_number(bytes, (index - 1) as nat) + 1
    } else {
        line_number(bytes, (index - 1) as nat)
    }
}

/// The column of an offset, counted from one in bytes from where its line
/// begins.
pub open spec fn column_number(bytes: Seq<u8>, index: nat) -> nat {
    (index - line_start(bytes, index) + 1) as nat
}

/// `LineColLookup::new`: the table of a source text. The call only keeps the
/// text; the contract says that the table is that of the text's bytes.
#[verifier::external_body]
pub(crate) fn new_lookup<'a>(source: &'a str) -> (lookup: LineColLookup<'a>)
    ensures
        lookup_source(&lookup) == source.spec_bytes(),
{
    LineColLookup::new(source)
}

/// `LineColLookup::get`: the line and the column of a byte offset, both
/// counted from one. The crate finds the last line start that is not behind
/// the offset, where a line starts at offset zero and behind each line feed;
/// the line is that start's number and the column the distance from it, plus
/// one. It panics on an offset behind the end of the text, which `requires`
/// leaves out.
#[verifier::external_body]
pub(crate) fn locate(lookup: &LineColLookup, index: usize) -> (place: (usize, usize))
    requires
        index <= lookup_source(lookup).len(),
    ensures
        place.0 == line_number(lookup_source(lookup), index as nat),
        place.1 == column_number(lookup_source(lookup), index as nat),
{
    lookup.get(index)
}

/// A text has at least as many bytes as characters.
pub proof fn lemma_bytes_cover_chars(chars: Seq<char>)
    ensures
        chars.len() <= encode_utf8(chars).len(),
    decreases chars.len(),
{
    if chars.len() > 0 {
        lemma_bytes_cover_chars(chars.drop_first());
        assert(encode_scalar(chars[0] as u32).len() >= 1);
    }
}

} // verus!
