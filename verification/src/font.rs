//! Fonts read from bytes.
//!
//! `rusttype` reads the start of a font where its tables say that it lies, in or out of the
//! data. What it reads there is followed here first, so that it is only given fonts that lie
//! within their data.
use rusttype::Font;
use vstd::prelude::*;

verus! {

#[verifier::external_type_specification]
#[verifier::external_body]
pub struct ExError(rusttype::Error);

/// Tags of the tables that a font is read from.
pub const CMAP: u32 = 0x636d_6170;

pub const LOCA: u32 = 0x6c6f_6361;

pub const HEAD: u32 = 0x6865_6164;

pub const GLYF: u32 = 0x676c_7966;

pub const HHEA: u32 = 0x6868_6561;

pub const HMTX: u32 = 0x686d_7478;

pub const NAME: u32 = 0x6e61_6d65;

pub const KERN: u32 = 0x6b65_726e;

pub const MAXP: u32 = 0x6d61_7870;

/// The two bytes at a place as a number, high byte first.
pub open spec fn number16(data: Seq<u8>, at: int) -> int {
    data[at] * 0x100 + data[at + 1]
}

/// The four bytes at a place as a number, high byte first.
pub open spec fn number32(data: Seq<u8>, at: int) -> int {
    number16(data, at) * 0x1_0000 + number16(data, at + 2)
}

/// Whether data starts as a single font does.
pub open spec fn starts_font(data: Seq<u8>) -> bool {
    let tag = number32(data, 0);
    tag == 0x3100_0000 || tag == 0x7479_7031 || tag == 0x4f54_544f || tag == 0x0001_0000
}

/// Whether data starts as a collection of one font does.
pub open spec fn starts_collection(data: Seq<u8>) -> bool {
    &&& data.len() >= 16
    &&& number32(data, 0) == 0x7474_6366
    &&& number32(data, 4) == 0x1_0000 || number32(data, 4) == 0x2_0000
    &&& number32(data, 8) == 1
}

/// Where the one font in the data starts; nothing if the data does not start as it has to.
pub open spec fn font_start(data: Seq<u8>) -> Option<int> {
    if data.len() < 4 {
        None
    } else if starts_font(data) {
        Some(0int)
    } else if starts_collection(data) {
        Some(number32(data, 12))
    } else {
        None
    }
}

/// The number of tables that a font names.
pub open spec fn table_count(data: Seq<u8>, start: int) -> int {
    number16(data, start + 4)
}

/// Where a font has the first table with a tag, from the `i`th on, or 0 if it has none; nothing
/// if the search leaves the data.
pub open spec fn table_from(data: Seq<u8>, start: int, tag: u32, i: int) -> Option<int>
    decreases table_count(data, start) - i,
{
    let at = start + 12 + 16 * i;
    if i >= table_count(data, start) {
        Some(0int)
    } else if at + 4 > data.len() {
        None
    } else if number32(data, at) != tag {
        table_from(data, start, tag, i + 1)
    } else if at + 12 > data.len() {
        None
    } else {
        Some(number32(data, at + 8))
    }
}

/// Whether a table with a tag can be looked up.
pub open spec fn table_sought(data: Seq<u8>, start: int, tag: u32) -> bool {
    table_from(data, start, tag, 0) is Some
}

/// Whether the `i`th encoding of a font's character map at `cmap` can be read, as far as it has
/// to be: where it is one for Unicode, the place of its map too.
pub open spec fn encoding_in_range(data: Seq<u8>, cmap: int, i: int) -> bool {
    let at = cmap + 4 + 8 * i;
    let unicode = number16(data, at) == 0 || (number16(data, at) == 3 && (number16(data, at + 2)
        == 1 || number16(data, at + 2) == 10));
    &&& at <= u32::MAX
    &&& at + 2 <= data.len()
    &&& number16(data, at) == 3 ==> at + 4 <= data.len()
    &&& unicode ==> at + 8 <= data.len() && cmap + number32(data, at + 4) <= u32::MAX
}

/// Whether the tables of the font at `start` that are read first lie within the data.
pub open spec fn tables_in_range(data: Seq<u8>, start: int) -> bool {
    let cmap = table_from(data, start, CMAP, 0)->0;
    let head = table_from(data, start, HEAD, 0)->0;
    let maxp = table_from(data, start, MAXP, 0)->0;
    &&& start + 6 <= data.len()
    &&& table_sought(data, start, CMAP) && table_sought(data, start, LOCA)
    &&& table_sought(data, start, HEAD) && table_sought(data, start, GLYF)
    &&& table_sought(data, start, HHEA) && table_sought(data, start, HMTX)
    &&& table_sought(data, start, NAME) && table_sought(data, start, KERN)
    &&& table_sought(data, start, MAXP)
    &&& maxp != 0 ==> maxp + 6 <= data.len()
    &&& cmap + 4 <= data.len()
    &&& forall|i: int|
        0 <= i < number16(data, cmap + 2) ==> #[trigger] encoding_in_range(data, cmap, i)
    &&& head + 52 <= data.len()
}

/// Whether data starts as that of one font does, and the tables that are read first lie within
/// it.
pub open spec fn font_in_range(data: Seq<u8>) -> bool {
    font_start(data) matches Some(start) && tables_in_range(data, start)
}

/// The font that `Font::from_bytes` reads from data; none if it returns an error.
pub uninterp spec fn parsed_font(data: Seq<u8>) -> Option<Font<'static>>;

/// Whether data is that of one font that can be used.
pub open spec fn is_font_data(data: Seq<u8>) -> bool {
    font_in_range(data) && parsed_font(data) is Some
}

/// `Font::from_bytes`: the font in the data, or an error if the data lacks what a font must
/// have. It panics where it has to read beyond the data.
#[verifier::external_body]
fn parse_font<'a>(data: &'a [u8]) -> (r: Result<Font<'a>, rusttype::Error>)
    requires
        font_in_range(data@),
    ensures
        r is Ok <==> parsed_font(data@) is Some,
        r matches Ok(font) ==> parsed_font(data@) == Some(font),
{
    Font::from_bytes(data)
}

/// `Font::from_bytes` on data that the font comes to own: as on data that it borrows.
#[verifier::external_body]
fn parse_owned_font(data: Vec<u8>) -> (r: Result<Font<'static>, rusttype::Error>)
    requires
        font_in_range(data@),
    ensures
        r is Ok <==> parsed_font(data@) is Some,
        r matches Ok(font) ==> parsed_font(data@) == Some(font),
{
    Font::from_bytes(data)
}

fn read16(data: &[u8], at: u64) -> (r: u64)
    requires
        at + 2 <= data@.len(),
    ensures
        r == number16(data@, at as int),
        r < 0x1_0000,
{
    data[at as usize] as u64 * 0x100 + data[at as usize + 1] as u64
}

fn read32(data: &[u8], at: u64) -> (r: u64)
    requires
        at + 4 <= data@.len(),
    ensures
        r == number32(data@, at as int),
        r <= u32::MAX,
{
    let len: usize = data.len();
    assert(at + 4 <= len);
    read16(data, at) * 0x1_0000 + read16(data, at + 2)
}

fn find_start(data: &[u8]) -> (r: Option<u64>)
    ensures
        match r {
            Some(start) => font_start(data@) == Some(start as int) && start <= u32::MAX,
            None => font_start(data@) is None,
        },
{
    if data.len() < 4 {
        return None;
    }
    let tag: u64 = read32(data, 0);
    if tag == 0x3100_0000 || tag == 0x7479_7031 || tag == 0x4f54_544f || tag == 0x0001_0000 {
        return Some(0);
    }
    if data.len() >= 16 && tag == 0x7474_6366 && (read32(data, 4) == 0x1_0000 || read32(data, 4)
        == 0x2_0000) && read32(data, 8) == 1 {
        Some(read32(data, 12))
    } else {
        None
    }
}

fn find_table(data: &[u8], start: u64, tag: u32) -> (r: Option<u64>)
    requires
        start <= u32::MAX,
        start + 6 <= data@.len(),
    ensures
        match r {
            Some(at) => table_from(data@, start as int, tag, 0) == Some(at as int) && at
                <= u32::MAX,
            None => table_from(data@, start as int, tag, 0) is None,
        },
{
    let len: u64 = data.len() as u64;
    let count: u64 = read16(data, start + 4);
    let mut i: u64 = 0;
    while i < count
        invariant
            i <= count < 0x1_0000,
            len == data@.len(),
            start <= u32::MAX,
            count == table_count(data@, start as int),
            table_from(data@, start as int, tag, i as int) == table_from(
                data@,
                start as int,
                tag,
                0,
            ),
        decreases count - i,
    {
        let at: u64 = start + 12 + 16 * i;
        if len < at + 4 {
            return None;
        }
        if read32(data, at) == tag as u64 {
            if len < at + 12 {
                return None;
            }
            return Some(read32(data, at + 8));
        }
        i = i + 1;
    }
    Some(0)
}

fn check_encoding(data: &[u8], cmap: u64, i: u64) -> (r: bool)
    requires
        cmap <= u32::MAX,
        i < 0x1_0000,
    ensures
        r == encoding_in_range(data@, cmap as int, i as int),
{
    let len: u64 = data.len() as u64;
    let at: u64 = cmap + 4 + 8 * i;
    if at > u32::MAX as u64 || len < at + 2 {
        return false;
    }
    let platform: u64 = read16(data, at);
    if platform == 3 && len < at + 4 {
        return false;
    }
    if platform == 0 || (platform == 3 && (read16(data, at + 2) == 1 || read16(data, at + 2)
        == 10)) {
        len >= at + 8 && cmap + read32(data, at + 4) <= u32::MAX as u64
    } else {
        true
    }
}

fn check_encodings(data: &[u8], cmap: u64) -> (r: bool)
    requires
        cmap <= u32::MAX,
        cmap + 4 <= data@.len(),
    ensures
        r <==> forall|i: int|
            0 <= i < number16(data@, cmap + 2) ==> #[trigger] encoding_in_range(
                data@,
                cmap as int,
                i,
            ),
{
    let count: u64 = read16(data, cmap + 2);
    let mut i: u64 = 0;
    while i < count
        invariant
            i <= count < 0x1_0000,
            cmap <= u32::MAX,
            count == number16(data@, cmap + 2),
            forall|j: int| 0 <= j < i ==> #[trigger] encoding_in_range(data@, cmap as int, j),
        decreases count - i,
    {
        if !check_encoding(data, cmap, i) {
            assert(!encoding_in_range(data@, cmap as int, i as int));
            return false;
        }
        i = i + 1;
    }
    true
}

fn check_range(data: &[u8]) -> (r: bool)
    ensures
        r == font_in_range(data@),
{
    let len: u64 = data.len() as u64;
    let start: u64 = match find_start(data) {
        Some(start) => start,
        None => {
            return false;
        },
    };
    if len < start + 6 || find_table(data, start, LOCA).is_none() || find_table(
        data,
        start,
        GLYF,
    ).is_none() || find_table(data, start, HHEA).is_none() || find_table(
        data,
        start,
        HMTX,
    ).is_none() || find_table(data, start, NAME).is_none() || find_table(
        data,
        start,
        KERN,
    ).is_none() {
        return false;
    }
    match (
        find_table(data, start, CMAP),
        find_table(data, start, HEAD),
        find_table(data, start, MAXP),
    ) {
        (Some(cmap), Some(head), Some(maxp)) => {
            if (maxp != 0 && len < maxp + 6) || len < cmap + 4 || len < head + 52 {
                return false;
            }
            check_encodings(data, cmap)
        },
        _ => false,
    }
}

/// Reads the one font that the data holds; none if it holds none that can be used.
pub fn read_font<'a>(data: &'a [u8]) -> (r: Option<Font<'a>>)
    ensures
        r is Some <==> is_font_data(data@),
        r matches Some(font) ==> parsed_font(data@) == Some(font),
{
    if check_range(data) {
        match parse_font(data) {
            Ok(font) => Some(font),
            Err(_) => None,
        }
    } else {
        None
    }
}

/// Reads the one font that the data holds, which the font then owns; none if it holds none that
/// can be used.
pub fn read_owned_font(data: Vec<u8>) -> (r: Option<Font<'static>>)
    ensures
        r is Some <==> is_font_data(data@),
        r matches Some(font) ==> parsed_font(data@) == Some(font),
{
    if check_range(data.as_slice()) {
        match parse_owned_font(data) {
            Ok(font) => Some(font),
            Err(_) => None,
        }
    } else {
        None
    }
}

} // verus!
