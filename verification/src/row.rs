//! The byte layout of a stored record.
//!
//! Every record is kept as a row: a short list of numbers and two texts. A row
//! is laid out as one byte that counts the numbers, the numbers themselves in
//! eight little-endian bytes each, the byte length of the first text in four
//! little-endian bytes, and then the two texts in UTF-8, one after the other.
use crate::stable::MAX_RECORD_BYTES;
use vstd::bytes::*;
use vstd::prelude::*;
use vstd::slice::*;
use vstd::utf8::*;

verus! {

/// The largest number of bytes a laid-out row may take: what a table holds
/// under one key.
pub const MAX_ROW_BYTES: usize = MAX_RECORD_BYTES;

/// The largest count of numbers a row may carry.
pub const MAX_ROW_NUMS: usize = 255;

/// A record as it is stored: numbers and two texts.
pub struct Row {
    pub nums: Vec<u64>,
    pub first: String,
    pub second: String,
}

/// What a row holds.
pub struct RowView {
    pub nums: Seq<u64>,
    pub first: Seq<char>,
    pub second: Seq<char>,
}

impl View for Row {
    type V = RowView;

    open spec fn view(&self) -> RowView {
        RowView { nums: self.nums@, first: self.first@, second: self.second@ }
    }
}

/// The numbers of a row, eight bytes each, in order.
pub open spec fn nums_layout(nums: Seq<u64>) -> Seq<u8>
    decreases nums.len(),
{
    if nums.len() == 0 {
        Seq::empty()
    } else {
        nums_layout(nums.drop_last()) + spec_u64_to_le_bytes(nums.last())
    }
}

/// The bytes that stand for a row.
pub open spec fn row_layout(row: RowView) -> Seq<u8> {
    seq![row.nums.len() as u8] + nums_layout(row.nums) + spec_u32_to_le_bytes(
        encode_utf8(row.first).len() as u32,
    ) + encode_utf8(row.first) + encode_utf8(row.second)
}

/// The length of a row's layout.
pub open spec fn row_size(row: RowView) -> nat {
    5 + 8 * row.nums.len() + encode_utf8(row.first).len() + encode_utf8(row.second).len()
}

/// Whether a row can be stored: few enough numbers, and a layout within the
/// size bound.
pub open spec fn row_fits(row: RowView) -> bool {
    row.nums.len() <= MAX_ROW_NUMS && row_size(row) <= MAX_ROW_BYTES
}

/// The `n` numbers that follow the first byte of `bytes`.
pub open spec fn nums_at(bytes: Seq<u8>, n: int) -> Seq<u64> {
    Seq::new(n as nat, |i: int| spec_u64_from_le_bytes(bytes.subrange(1 + 8 * i, 9 + 8 * i)))
}

/// The row that `bytes` stand for, if they stand for one.
pub open spec fn row_parse(bytes: Seq<u8>) -> Option<RowView> {
    if bytes.len() < 1 {
        None
    } else {
        let n = bytes[0] as int;
        if bytes.len() < 5 + 8 * n {
            None
        } else {
            let len = spec_u32_from_le_bytes(bytes.subrange(1 + 8 * n, 5 + 8 * n)) as int;
            if bytes.len() < 5 + 8 * n + len {
                None
            } else {
                let first = bytes.subrange(5 + 8 * n, 5 + 8 * n + len);
                let second = bytes.subrange(5 + 8 * n + len, bytes.len() as int);
                if valid_utf8(first) && valid_utf8(second) {
                    Some(
                        RowView {
                            nums: nums_at(bytes, n),
                            first: decode_utf8(first),
                            second: decode_utf8(second),
                        },
                    )
                } else {
                    None
                }
            }
        }
    }
}

pub proof fn lemma_nums_layout_len(nums: Seq<u64>)
    ensures
        nums_layout(nums).len() == 8 * nums.len(),
    decreases nums.len(),
{
    lemma_auto_spec_u64_to_from_le_bytes();
    if nums.len() > 0 {
        lemma_nums_layout_len(nums.drop_last());
    }
}

/// The `i`-th group of eight bytes in the layout of `nums` is the `i`-th number.
pub proof fn lemma_nums_layout_chunk(nums: Seq<u64>, i: int)
    requires
        0 <= i < nums.len(),
    ensures
        nums_layout(nums).subrange(8 * i, 8 * i + 8) == spec_u64_to_le_bytes(nums[i]),
    decreases nums.len(),
{
    lemma_auto_spec_u64_to_from_le_bytes();
    let front = nums.drop_last();
    lemma_nums_layout_len(front);
    lemma_nums_layout_len(nums);
    if i < nums.len() - 1 {
        lemma_nums_layout_chunk(front, i);
        assert(nums_layout(nums).subrange(8 * i, 8 * i + 8) =~= nums_layout(front).subrange(
            8 * i,
            8 * i + 8,
        ));
        assert(front[i] == nums[i]);
    } else {
        assert(nums_layout(nums).subrange(8 * i, 8 * i + 8) =~= spec_u64_to_le_bytes(
            nums.last(),
        ));
    }
}

/// The layout of a row has the length that `row_size` gives.
pub proof fn lemma_row_layout_len(row: RowView)
    ensures
        row_layout(row).len() == row_size(row),
{
    lemma_nums_layout_len(row.nums);
    lemma_auto_spec_u32_to_from_le_bytes();
}

/// Parsing undoes the layout: the bytes of a row that fits stand for that row
/// and for no other.
pub proof fn lemma_row_round_trip(row: RowView)
    requires
        row_fits(row),
    ensures
        row_parse(row_layout(row)) == Some(row),
{
    broadcast use encode_utf8_valid_utf8, encode_utf8_decode_utf8;

    lemma_auto_spec_u64_to_from_le_bytes();
    lemma_auto_spec_u32_to_from_le_bytes();
    lemma_nums_layout_len(row.nums);
    let bytes = row_layout(row);
    let n = row.nums.len() as int;
    let a = encode_utf8(row.first);
    let b = encode_utf8(row.second);
    let len = a.len() as int;
    assert(bytes[0] as int == n);
    assert(bytes.len() == 5 + 8 * n + len + b.len());
    assert(bytes.subrange(1 + 8 * n, 5 + 8 * n) =~= spec_u32_to_le_bytes(a.len() as u32));
    assert(bytes.subrange(5 + 8 * n, 5 + 8 * n + len) =~= a);
    assert(bytes.subrange(5 + 8 * n + len, bytes.len() as int) =~= b);
    assert forall|i: int| 0 <= i < n implies #[trigger] nums_at(bytes, n)[i] == row.nums[i] by {
        lemma_nums_layout_chunk(row.nums, i);
        assert(bytes.subrange(1 + 8 * i, 9 + 8 * i) =~= nums_layout(row.nums).subrange(
            8 * i,
            8 * i + 8,
        ));
    }
    assert(nums_at(bytes, n) =~= row.nums);
}

/// Bytes that stand for a row are the layout of a row that fits in as many
/// bytes.
pub proof fn lemma_row_parse_size(bytes: Seq<u8>)
    requires
        row_parse(bytes) is Some,
    ensures
        row_parse(bytes).unwrap().nums.len() <= MAX_ROW_NUMS,
        row_size(row_parse(bytes).unwrap()) == bytes.len(),
{
    broadcast use decode_utf8_encode_utf8;

    let n = bytes[0] as int;
    let len = spec_u32_from_le_bytes(bytes.subrange(1 + 8 * n, 5 + 8 * n)) as int;
    let first = bytes.subrange(5 + 8 * n, 5 + 8 * n + len);
    let second = bytes.subrange(5 + 8 * n + len, bytes.len() as int);
    assert(encode_utf8(decode_utf8(first)) == first);
    assert(encode_utf8(decode_utf8(second)) == second);
}

/// `String::from_utf8`: the text that `bytes` spell in UTF-8, or `None` where
/// they are not UTF-8.
#[verifier::external_body]
pub(crate) fn string_from_utf8(bytes: Vec<u8>) -> (r: Option<String>)
    ensures
        r.is_some() == valid_utf8(bytes@),
        r is Some ==> r.unwrap()@ == decode_utf8(bytes@),
{
    String::from_utf8(bytes).ok()
}

/// Lays a row out, or returns `None` where the row does not fit.
pub fn encode(row: &Row) -> (out: Option<Vec<u8>>)
    ensures
        out.is_some() == row_fits(row@),
        out is Some ==> out.unwrap()@ == row_layout(row@),
{
    let n = row.nums.len();
    let a = row.first.as_str().as_bytes();
    let b = row.second.as_str().as_bytes();
    if n > MAX_ROW_NUMS || a.len() > MAX_ROW_BYTES || b.len() > MAX_ROW_BYTES {
        return None;
    }
    if 5 + 8 * n + a.len() + b.len() > MAX_ROW_BYTES {
        return None;
    }
    let mut out: Vec<u8> = Vec::new();
    out.push(n as u8);
    let mut i: usize = 0;
    while i < n
        invariant
            i <= n,
            n == row.nums@.len(),
            out@ == seq![n as u8] + nums_layout(row.nums@.take(i as int)),
        decreases n - i,
    {
        let chunk = u64_to_le_bytes(row.nums[i]);
        out.extend_from_slice(chunk.as_slice());
        proof {
            let upto = row.nums@.take(i + 1);
            assert(upto.drop_last() =~= row.nums@.take(i as int));
            assert(upto.last() == row.nums@[i as int]);
            assert(out@ =~= seq![n as u8] + nums_layout(upto));
        }
        i += 1;
    }
    let width = u32_to_le_bytes(a.len() as u32);
    out.extend_from_slice(width.as_slice());
    out.extend_from_slice(a);
    out.extend_from_slice(b);
    proof {
        assert(row.nums@.take(n as int) =~= row.nums@);
        assert(out@ =~= row_layout(row@));
    }
    Some(out)
}

/// Reads a row back from its bytes, or returns `None` where the bytes stand
/// for no row.
pub fn decode(bytes: &[u8]) -> (out: Option<Row>)
    ensures
        out.is_some() == row_parse(bytes@).is_some(),
        out is Some ==> out.unwrap()@ == row_parse(bytes@).unwrap(),
{
    let total = bytes.len();
    if total < 1 {
        return None;
    }
    let n: usize = bytes[0] as usize;
    if total < 5 + 8 * n {
        return None;
    }
    let mut nums: Vec<u64> = Vec::new();
    let mut i: usize = 0;
    while i < n
        invariant
            i <= n <= 255,
            5 + 8 * n <= total == bytes@.len(),
            nums@.len() == i,
            forall|j: int| 0 <= j < i ==> nums@[j] == #[trigger] nums_at(bytes@, n as int)[j],
        decreases n - i,
    {
        let chunk = slice_subrange(bytes, 1 + 8 * i, 9 + 8 * i);
        nums.push(u64_from_le_bytes(chunk));
        i += 1;
    }
    let width = u32_from_le_bytes(slice_subrange(bytes, 1 + 8 * n, 5 + 8 * n));
    let len: usize = width as usize;
    if total - (5 + 8 * n) < len {
        return None;
    }
    let mid: usize = 5 + 8 * n + len;
    let first = string_from_utf8(slice_to_vec(slice_subrange(bytes, 5 + 8 * n, mid)));
    let second = string_from_utf8(slice_to_vec(slice_subrange(bytes, mid, total)));
    match (first, second) {
        (Some(first), Some(second)) => {
            proof {
                assert(nums@ =~= nums_at(bytes@, n as int));
            }
            Some(Row { nums, first, second })
        },
        _ => None,
    }
}

} // verus!
