//! Which data is read as that of a font.
use crate::font::{font_in_range, font_start, number16, number32, table_from, CMAP};
use vstd::prelude::*;

verus! {

/// Whether four bytes stand at a place.
pub open spec fn bytes_at(data: Seq<u8>, at: int, a: u8, b: u8, c: u8, d: u8) -> bool {
    data[at] == a && data[at + 1] == b && data[at + 2] == c && data[at + 3] == d
}

/// Numbers have their high byte first.
pub proof fn numbers_have_their_high_byte_first(data: Seq<u8>, at: int)
    ensures
        number16(data, at) == data[at] * 0x100 + data[at + 1],
        number32(data, at) == data[at] * 0x100_0000 + data[at + 1] * 0x1_0000 + data[at + 2] * 0x100
            + data[at + 3],
{
}

/// A single font starts with one of four marks, and is the whole data. A collection of one font
/// has its own mark, one of two versions and the number one, and names the place of the font.
/// Nothing else is read as a font.
pub proof fn fonts_start_with_their_marks(data: Seq<u8>)
    ensures
        ({
            let single = bytes_at(data, 0, 0x31, 0, 0, 0) || bytes_at(data, 0, 0x74, 0x79, 0x70, 0x31)
                || bytes_at(data, 0, 0x4f, 0x54, 0x54, 0x4f) || bytes_at(data, 0, 0, 1, 0, 0);
            let collection = bytes_at(data, 0, 0x74, 0x74, 0x63, 0x66) && (bytes_at(
                data,
                4,
                0,
                1,
                0,
                0,
            ) || bytes_at(data, 4, 0, 2, 0, 0)) && bytes_at(data, 8, 0, 0, 0, 1);
            &&& data.len() >= 4 && single ==> font_start(data) == Some(0int)
            &&& data.len() >= 16 && collection ==> font_start(data) == Some(
                data[12] * 0x100_0000 + data[13] * 0x1_0000 + data[14] * 0x100 + data[15],
            )
            &&& font_start(data) is Some ==> data.len() >= 4 && (single || (data.len() >= 16
                && collection))
        }),
{
}

/// Where a font names its `i`th table.
pub open spec fn record(start: int, i: int) -> int {
    start + 12 + 16 * i
}

/// Whether the list of a font's tables lies within the data.
pub open spec fn records_within(data: Seq<u8>, start: int) -> bool {
    0 <= start && record(start, number16(data, start + 4)) <= data.len()
}

proof fn lemma_table(data: Seq<u8>, start: int, tag: u32, i: int)
    requires
        records_within(data, start),
        0 <= i,
    ensures
        table_from(data, start, tag, i) is Some,
        forall|j: int|
            #![trigger record(start, j)]
            i <= j < number16(data, start + 4) && number32(data, record(start, j)) == tag && (
            forall|k: int| #![trigger record(start, k)]
                i <= k < j ==> number32(data, record(start, k)) != tag) ==> table_from(
                data,
                start,
                tag,
                i,
            ) == Some(number32(data, record(start, j) + 8)),
        (forall|j: int| #![trigger record(start, j)]
            i <= j < number16(data, start + 4) ==> number32(data, record(start, j)) != tag)
            ==> table_from(data, start, tag, i) == Some(0int),
        table_from(data, start, tag, i) == Some(0int) || exists|j: int|
            #![trigger record(start, j)]
            i <= j < number16(data, start + 4) && number32(data, record(start, j)) == tag
                && table_from(data, start, tag, i) == Some(number32(data, record(start, j) + 8)),
    decreases number16(data, start + 4) - i,
{
    if i < number16(data, start + 4) {
        lemma_table(data, start, tag, i + 1);
        let here = record(start, i);
        if number32(data, here) == tag {
            assert(table_from(data, start, tag, i) == Some(number32(data, here + 8)));
        } else {
            assert(table_from(data, start, tag, i) == table_from(data, start, tag, i + 1));
            assert forall|j: int|
                #![trigger record(start, j)]
                i <= j < number16(data, start + 4) && number32(data, record(start, j)) == tag && (
                forall|k: int| #![trigger record(start, k)]
                    i <= k < j ==> number32(data, record(start, k))
                        != tag) implies table_from(data, start, tag, i) == Some(
                number32(data, record(start, j) + 8),
            ) by {
                assert(j >= i + 1);
            }
        }
    }
}

/// A table is found where the first record with its tag says, and at the start of the data if no
/// record has the tag.
pub proof fn tables_are_found_by_their_tags(data: Seq<u8>, start: int, tag: u32, j: int)
    requires
        records_within(data, start),
        0 <= j <= number16(data, start + 4),
        forall|k: int| #![trigger record(start, k)]
            0 <= k < j ==> number32(data, record(start, k)) != tag,
        j < number16(data, start + 4) ==> number32(data, record(start, j)) == tag,
    ensures
        table_from(data, start, tag, 0) == (if j < number16(data, start + 4) {
            Some(number32(data, record(start, j) + 8))
        } else {
            Some(0int)
        }),
{
    lemma_table(data, start, tag, 0);
    assert(record(start, j) == record(start, j));
}

/// Data is read as that of a font if it starts as one, names all tables within the data, has a
/// character map whose encodings lie within it, and every table has as much room there as is read
/// of it first.
pub proof fn fonts_within_their_data_are_read(data: Seq<u8>, start: int)
    requires
        font_start(data) == Some(start),
        data.len() >= 52,
        data.len() <= u32::MAX,
        records_within(data, start),
        forall|i: int| #![trigger record(start, i)]
            0 <= i < number16(data, start + 4) ==> number32(data, record(start, i) + 8) + 52
                <= data.len(),
        exists|i: int| #![trigger record(start, i)]
            0 <= i < number16(data, start + 4) && number32(data, record(start, i)) == CMAP,
        forall|i: int, k: int|
            #![trigger record(start, i), number16(data, number32(data, record(start, i) + 8) + 4 + 8 * k)]
            0 <= i < number16(data, start + 4) && number32(data, record(start, i)) == CMAP && 0 <= k
                < number16(data, number32(data, record(start, i) + 8) + 2) ==> {
                let cmap = number32(data, record(start, i) + 8);
                &&& cmap + 4 + 8 * k + 8 <= data.len()
                &&& cmap + number32(data, cmap + 4 + 8 * k + 4) <= data.len()
            },
    ensures
        font_in_range(data),
{
    lemma_table(data, start, CMAP, 0);
    lemma_table(data, start, crate::font::LOCA, 0);
    lemma_table(data, start, crate::font::HEAD, 0);
    lemma_table(data, start, crate::font::GLYF, 0);
    lemma_table(data, start, crate::font::HHEA, 0);
    lemma_table(data, start, crate::font::HMTX, 0);
    lemma_table(data, start, crate::font::NAME, 0);
    lemma_table(data, start, crate::font::KERN, 0);
    lemma_table(data, start, crate::font::MAXP, 0);
    let count = number16(data, start + 4);
    let some = choose|i: int| #![trigger record(start, i)]
        0 <= i < count && number32(data, record(start, i)) == CMAP;
    let first = lemma_first(data, start, CMAP, some);
    let cmap = number32(data, record(start, first) + 8);
    assert(table_from(data, start, CMAP, 0) == Some(cmap));
    assert forall|k: int| 0 <= k < number16(data, cmap + 2) implies
        #[trigger] crate::font::encoding_in_range(data, cmap, k) by {
        let entry = number16(data, number32(data, record(start, first) + 8) + 4 + 8 * k);
        assert(entry == number16(data, cmap + 4 + 8 * k));
    }
}

/// Data that is read as that of a font starts as one, and all tables can be looked up in it. It
/// holds what is read first of the list of tables, of the character map, of the head, and of the
/// table of limits if there is one.
pub proof fn fonts_that_are_read_lie_within_their_data(data: Seq<u8>, start: int, tag: u32)
    requires
        font_in_range(data),
        font_start(data) == Some(start),
        tag == CMAP || tag == crate::font::LOCA || tag == crate::font::HEAD || tag
            == crate::font::GLYF || tag == crate::font::HHEA || tag == crate::font::HMTX || tag
            == crate::font::NAME || tag == crate::font::KERN || tag == crate::font::MAXP,
    ensures
        start + 6 <= data.len(),
        table_from(data, start, tag, 0) is Some,
        tag == CMAP ==> table_from(data, start, tag, 0)->0 + 4 <= data.len(),
        tag == crate::font::HEAD ==> table_from(data, start, tag, 0)->0 + 52 <= data.len(),
        tag == crate::font::MAXP && table_from(data, start, tag, 0)->0 != 0 ==> table_from(
            data,
            start,
            tag,
            0,
        )->0 + 6 <= data.len(),
{
}

/// The first record with a tag, where there is one.
proof fn lemma_first(data: Seq<u8>, start: int, tag: u32, i: int) -> (first: int)
    requires
        0 <= i < number16(data, start + 4),
        number32(data, record(start, i)) == tag,
    ensures
        0 <= first <= i,
        number32(data, record(start, first)) == tag,
        forall|k: int| #![trigger record(start, k)]
            0 <= k < first ==> number32(data, record(start, k)) != tag,
    decreases i,
{
    if forall|k: int| #![trigger record(start, k)]
        0 <= k < i ==> number32(data, record(start, k)) != tag {
        i
    } else {
        let earlier = choose|k: int| #![trigger record(start, k)]
            0 <= k < i && number32(data, record(start, k)) == tag;
        lemma_first(data, start, tag, earlier)
    }
}

} // verus!
