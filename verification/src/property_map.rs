//! Property maps: which properties an object announces, lets read or lets
//! write, as one property's data tells it.
//!
//! The first byte counts the properties. Below sixteen, the codes follow one
//! by one. From sixteen on, sixteen bytes follow as a table of bits: bit `j`
//! of byte `i` stands for the code `0x80 + 0x10 * j + i`.
//!
//! ```text
//!          bit 7  bit 6  bit 5  bit 4  bit 3  bit 2  bit 1  bit 0
//! byte 0   0xF0   0xE0   0xD0   0xC0   0xB0   0xA0   0x90   0x80
//! byte 1   0xF1   0xE1   0xD1   0xC1   0xB1   0xA1   0x91   0x81
//! ...
//! byte 15  0xFF   0xEF   0xDF   0xCF   0xBF   0xAF   0x9F   0x8F
//! ```

use crate::error::ResponseError;
use crate::packet::ElU8;
use crate::packet::EDT;
use vstd::prelude::*;
use vstd::slice::slice_subrange;
use vstd::slice::slice_to_vec;

verus! {

/// From this count on a map is a table of bits.
pub const BITMAP_FROM: u8 = 16;

/// Number of bytes in the table of bits.
pub const BITMAP_ROWS: usize = 16;

/// Bit `j` of `row` is set.
pub open spec fn bit_set(row: u8, j: u8) -> bool {
    row & (1u8 << j) != 0
}

/// The property code that bit `j` of byte `i` of the table stands for.
pub open spec fn code_of(i: int, j: int) -> ElU8 {
    ElU8((0x80 + 0x10 * j + i) as u8)
}

/// The cells of the table, as pairs of byte and bit, in the order in which a
/// map lists them: byte by byte, and within a byte from bit 0 up.
pub open spec fn cells() -> Seq<(int, int)> {
    Seq::new(128, |k: int| (k / 8, k % 8))
}

/// Whether the bit of a cell is set in the table `rows`.
pub open spec fn cell_set(rows: Seq<ElU8>) -> spec_fn((int, int)) -> bool {
    |c: (int, int)| bit_set(rows[c.0].0, c.1 as u8)
}

/// The codes of the set bits among the first `n` cells of the table, in the
/// order of the cells.
pub open spec fn codes_of_first(rows: Seq<ElU8>, n: int) -> Seq<ElU8> {
    cells().take(n).filter(cell_set(rows)).map_values(|c: (int, int)| code_of(c.0, c.1))
}

/// The codes of the set bits of the table `rows`, in the order of the cells.
pub open spec fn bitmap_codes(rows: Seq<ElU8>) -> Seq<ElU8> {
    codes_of_first(rows, 128)
}

/// The map that a property's data holds, or `None` where the data has no
/// count byte, or announces a table and holds fewer than sixteen bytes of it.
/// A list is taken as it stands behind the count, however many codes the
/// count announces.
pub open spec fn property_map(data: Seq<ElU8>) -> Option<Seq<ElU8>> {
    if data.len() == 0 {
        None
    } else if data[0].0 < BITMAP_FROM {
        Some(data.skip(1))
    } else if data.len() < 1 + BITMAP_ROWS {
        None
    } else {
        Some(bitmap_codes(data.subrange(1, 17)))
    }
}

/// One more cell adds its code where its bit is set, and nothing else.
pub proof fn lemma_codes_of_next(rows: Seq<ElU8>, n: int)
    requires
        0 <= n < 128,
    ensures
        codes_of_first(rows, n + 1) == if bit_set(rows[n / 8].0, (n % 8) as u8) {
            codes_of_first(rows, n).push(code_of(n / 8, n % 8))
        } else {
            codes_of_first(rows, n)
        },
{
    let before = cells().take(n);
    let cell = cells()[n];
    assert(cells().take(n + 1) =~= before.push(cell));
    before.lemma_filter_push(cell, cell_set(rows));
}

/// The set that the map of a table stands for: a code is listed exactly when
/// it is `0x80` or more and the bit that stands for it is set, which is bit
/// `code / 16 - 8` of byte `code % 16`.
pub proof fn lemma_bitmap_codes_contain(rows: Seq<ElU8>, code: ElU8)
    ensures
        bitmap_codes(rows).contains(code) <==> code.0 >= 0x80 && bit_set(
            rows[code.0 as int % 16].0,
            (code.0 / 16 - 8) as u8,
        ),
{
    lemma_codes_contain(rows, 128, code);
    if code.0 >= 0x80 {
        let k = 8 * (code.0 as int % 16) + (code.0 as int / 16 - 8);
        assert(code_of(k / 8, k % 8) == code);
    }
}

/// `code` is the code of a set bit among the first `n` cells of the table.
pub open spec fn listed(rows: Seq<ElU8>, n: int, code: ElU8) -> bool {
    exists|k: int|
        0 <= k < n && bit_set(rows[k / 8].0, (k % 8) as u8) && #[trigger] code_of(k / 8, k % 8)
            == code
}

/// Among the first `n` cells, the codes that are listed are those of the set
/// bits.
proof fn lemma_codes_contain(rows: Seq<ElU8>, n: int, code: ElU8)
    requires
        0 <= n <= 128,
    ensures
        codes_of_first(rows, n).contains(code) <==> listed(rows, n, code),
    decreases n,
{
    if n == 0 {
        reveal(Seq::filter);
    } else {
        let m = n - 1;
        lemma_codes_contain(rows, m, code);
        lemma_codes_of_next(rows, m);
        let before = codes_of_first(rows, m);
        let here = code_of(m / 8, m % 8);
        if bit_set(rows[m / 8].0, (m % 8) as u8) {
            let after = before.push(here);
            assert(after[after.len() - 1] == here);
            if before.contains(code) {
                let k = choose|k: int| 0 <= k < before.len() && before[k] == code;
                assert(after[k] == code);
            }
        }
        if listed(rows, n, code) {
            let k = choose|k: int|
                0 <= k < n && bit_set(rows[k / 8].0, (k % 8) as u8) && #[trigger] code_of(
                    k / 8,
                    k % 8,
                ) == code;
        }
    }
}

/// Decodes the property map that the data of a property holds.
pub fn parse_property_map(edt: &EDT) -> (r: Result<Vec<ElU8>, ResponseError>)
    ensures
        match property_map(edt@) {
            Some(codes) => r matches Ok(v) && v@ == codes,
            None => r == Err::<Vec<ElU8>, ResponseError>(ResponseError::MalformedProperty),
        },
{
    let data = &edt.0;
    if data.len() == 0 {
        return Err(ResponseError::MalformedProperty);
    }
    if data[0].0 < BITMAP_FROM {
        return Ok(slice_to_vec(slice_subrange(data.as_slice(), 1, data.len())));
    }
    if data.len() < 1 + BITMAP_ROWS {
        return Err(ResponseError::MalformedProperty);
    }
    let ghost rows = edt@.subrange(1, 17);
    let mut props: Vec<ElU8> = Vec::with_capacity(usize::from(data[0]));
    let mut i: u8 = 0;
    proof {
        reveal(Seq::filter);
    }
    while i < 16
        invariant
            i <= 16,
            data@.len() >= 17,
            rows == data@.subrange(1, 17),
            props@ == codes_of_first(rows, 8 * i),
        decreases 16 - i,
    {
        let row: u8 = data[1 + i as usize].0;
        let mut j: u8 = 0;
        while j < 8
            invariant
                i < 16,
                j <= 8,
                row == rows[i as int].0,
                props@ == codes_of_first(rows, 8 * i + j),
            decreases 8 - j,
        {
            proof {
                lemma_codes_of_next(rows, 8 * i + j);
            }
            if row & (1u8 << j) != 0 {
                props.push(ElU8(0x80 + 0x10 * j + i));
            }
            j += 1;
        }
        i += 1;
    }
    Ok(props)
}

} // verus!
