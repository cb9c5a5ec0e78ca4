//! The packed dual-buffer decoder.  The host exposes a sequence of
//! null-terminated strings as one flat byte buffer plus a table of
//! start positions given as absolute addresses; the decoder re-bases
//! each position against the buffer's own address and cuts the buffer
//! into its entries.  Environment entries are further split into a
//! name and a value on the first `=`.

use vstd::prelude::*;
use crate::text::{lossy_decode, utf8_lossy};

verus! {

use vstd::utf8::{valid_utf8, decode_utf8, encode_utf8};
use vstd::utf8::{encode_utf8_valid_utf8, encode_utf8_decode_utf8};
use vstd::string::StrSliceExecFns;
use vstd::string::StringExecFns;

/// One decoded environment entry.  Duplicate names from the host are
/// kept as separate entries, in sequence order.
pub struct EnvironmentalVariable {
    pub name: String,
    pub value: String,
}

/// Where entry `i` starts in the flat buffer: its absolute position
/// re-based against the buffer's own address.
pub open spec fn seg_start(positions: Seq<usize>, base: int, i: int) -> int {
    positions[i] - base
}

/// Where entry `i` ends (exclusive) in the flat buffer: just before the
/// next entry's null terminator, or just before the final terminator
/// for the last entry.
pub open spec fn seg_end(positions: Seq<usize>, data: Seq<u8>, base: int, i: int) -> int {
    if i == positions.len() - 1 {
        data.len() - 1
    } else {
        positions[i + 1] - base - 1
    }
}

/// The bytes of entry `i`.
pub open spec fn seg_bytes(positions: Seq<usize>, data: Seq<u8>, base: int, i: int) -> Seq<u8> {
    data.subrange(seg_start(positions, base, i), seg_end(positions, data, base, i))
}

/// Whether the position table describes entries that lie within the
/// buffer: every position at or above the base address, and every
/// entry's start no later than its end.
pub open spec fn layout_ok(positions: Seq<usize>, data: Seq<u8>, base: int) -> bool {
    positions.len() == 0 || {
        &&& data.len() >= 1
        &&& (forall|i: int| 0 <= i < positions.len() ==> base <= #[trigger] positions[i])
        &&& (forall|i: int|
            0 <= i < positions.len() ==> #[trigger] seg_start(positions, base, i) <= seg_end(
                positions,
                data,
                base,
                i,
            ) <= data.len())
    }
}

/// What decoding entry `i` must yield: the lossy decoding of its bytes,
/// which is exact wherever those bytes are valid UTF-8.
pub open spec fn decoded_seg(
    s: Seq<char>,
    positions: Seq<usize>,
    data: Seq<u8>,
    base: int,
    i: int,
) -> bool {
    &&& s == lossy_decode(seg_bytes(positions, data, base, i))
    &&& valid_utf8(seg_bytes(positions, data, base, i)) ==> s == decode_utf8(
        seg_bytes(positions, data, base, i),
    )
}

/// Decodes the packed buffer into its entries, in table order.
/// Returns `None` exactly when the position table does not describe
/// entries lying within the buffer.
pub fn decode_packed(positions: &Vec<usize>, data: &Vec<u8>, base: usize) -> (r: Option<
    Vec<String>,
>)
    ensures
        r is Some <==> layout_ok(positions@, data@, base as int),
        r matches Some(v) ==> {
            &&& v.len() == positions.len()
            &&& forall|i: int|
                0 <= i < v.len() ==> decoded_seg(v[i]@, positions@, data@, base as int, i)
        },
{
    let n = positions.len();
    let mut out: Vec<String> = Vec::new();
    if n == 0 {
        return Some(out);
    }
    if data.len() == 0 {
        return None;
    }
    let mut i: usize = 0;
    while i < n
        invariant
            0 < n == positions.len(),
            data.len() >= 1,
            i <= n,
            out.len() == i,
            forall|k: int| 0 <= k < i ==> base <= #[trigger] positions@[k],
            forall|k: int|
                0 <= k < i ==> #[trigger] seg_start(positions@, base as int, k) <= seg_end(
                    positions@,
                    data@,
                    base as int,
                    k,
                ) <= data.len(),
            forall|k: int|
                0 <= k < i ==> decoded_seg(#[trigger] out[k]@, positions@, data@, base as int, k),
        decreases n - i,
    {
        let p = positions[i];
        if p < base {
            return None;
        }
        let beg = p - base;
        let end: usize;
        if i + 1 < n {
            let q = positions[i + 1];
            if q <= base {
                assert(seg_end(positions@, data@, base as int, i as int) < seg_start(
                    positions@,
                    base as int,
                    i as int,
                ));
                return None;
            }
            end = q - base - 1;
        } else {
            end = data.len() - 1;
        }
        if beg > end || end > data.len() {
            assert(seg_start(positions@, base as int, i as int) == beg);
            assert(seg_end(positions@, data@, base as int, i as int) == end);
            return None;
        }
        let mut seg: Vec<u8> = Vec::new();
        let mut j: usize = beg;
        while j < end
            invariant
                beg <= j <= end <= data.len(),
                seg@ =~= data@.subrange(beg as int, j as int),
            decreases end - j,
        {
            seg.push(data[j]);
            j = j + 1;
        }
        assert(seg@ =~= seg_bytes(positions@, data@, base as int, i as int));
        let s = utf8_lossy(&seg);
        out.push(s);
        i = i + 1;
    }
    Some(out)
}

/// The flat buffer that encodes `items`: each entry's UTF-8 bytes
/// followed by a null terminator, in order.
pub open spec fn flat_encoding(items: Seq<Seq<char>>) -> Seq<u8>
    decreases items.len(),
{
    if items.len() == 0 {
        Seq::empty()
    } else {
        encode_utf8(items[0]) + seq![0u8] + flat_encoding(items.skip(1))
    }
}

/// Where entry `i` starts within `flat_encoding(items)`.
pub open spec fn flat_offset(items: Seq<Seq<char>>, i: int) -> int
    decreases i,
{
    if i <= 0 {
        0
    } else {
        flat_offset(items, i - 1) + encode_utf8(items[i - 1]).len() + 1
    }
}

/// Offsets into the flat encoding grow with the index, and the offset
/// one past the last entry is the whole buffer's length.
pub proof fn lemma_flat_offset_mono(items: Seq<Seq<char>>, i: int, j: int)
    requires
        0 <= i <= j,
    ensures
        flat_offset(items, i) <= flat_offset(items, j),
    decreases j - i,
{
    if i < j {
        lemma_flat_offset_mono(items, i, j - 1);
    }
}

/// The whole flat encoding is as long as the offset one past the last
/// entry.
pub proof fn lemma_flat_len(items: Seq<Seq<char>>)
    ensures
        flat_encoding(items).len() == flat_offset(items, items.len() as int),
    decreases items.len(),
{
    if items.len() > 0 {
        lemma_flat_len(items.skip(1));
        lemma_flat_offset_shift(items, items.len() as int);
    }
}

/// An offset into the flat encoding, seen from the second entry on.
pub proof fn lemma_flat_offset_shift(items: Seq<Seq<char>>, i: int)
    requires
        1 <= i <= items.len(),
        items.len() > 0,
    ensures
        flat_offset(items, i) == encode_utf8(items[0]).len() + 1 + flat_offset(
            items.skip(1),
            i - 1,
        ),
    decreases i,
{
    if i == 1 {
        assert(flat_offset(items, 1) == flat_offset(items, 0) + encode_utf8(items[0]).len() + 1);
        assert(flat_offset(items.skip(1), 0) == 0);
    } else {
        lemma_flat_offset_shift(items, i - 1);
        assert(items.skip(1)[i - 2] == items[i - 1]);
        assert(flat_offset(items.skip(1), i - 1) == flat_offset(items.skip(1), i - 2)
            + encode_utf8(items.skip(1)[i - 2]).len() + 1);
    }
}

/// Entry `i` of the flat encoding sits at its offset, exactly its
/// encoded bytes, with a null terminator right after it.
pub proof fn lemma_flat_segment(items: Seq<Seq<char>>, i: int)
    requires
        0 <= i < items.len(),
    ensures
        flat_offset(items, i) + encode_utf8(items[i]).len() < flat_encoding(items).len(),
        flat_encoding(items).subrange(
            flat_offset(items, i),
            flat_offset(items, i) + encode_utf8(items[i]).len() as int,
        ) == encode_utf8(items[i]),
        flat_encoding(items)[flat_offset(items, i) + encode_utf8(items[i]).len()] == 0u8,
    decreases items.len(),
{
    lemma_flat_len(items);
    if i == 0 {
        let enc = encode_utf8(items[0]);
        lemma_flat_offset_mono(items, 1, items.len() as int);
        assert(flat_encoding(items).subrange(0, enc.len() as int) =~= enc);
    } else {
        let rest = items.skip(1);
        lemma_flat_segment(rest, i - 1);
        lemma_flat_offset_shift(items, i);
        lemma_flat_offset_mono(rest, 0, i - 1);
        lemma_flat_len(rest);
        let head = (encode_utf8(items[0]).len() + 1) as int;
        assert(rest[i - 1] == items[i]);
        let enc = encode_utf8(items[i]);
        let off = flat_offset(items, i);
        let pre = encode_utf8(items[0]) + seq![0u8];
        assert(pre.len() == head);
        assert(flat_encoding(items) == pre + flat_encoding(rest));
        assert forall|k: int| 0 <= k <= enc.len() implies #[trigger] flat_encoding(items)[off + k]
            == flat_encoding(rest)[off - head + k] by {
            assert((pre + flat_encoding(rest))[off + k] == flat_encoding(rest)[off + k
                - pre.len()]);
        }
        assert(flat_encoding(items).subrange(off, off + enc.len()) =~= flat_encoding(
            rest,
        ).subrange(off - head, off - head + enc.len()));
        assert(flat_encoding(items)[off + enc.len()] == flat_encoding(rest)[off - head
            + enc.len()]);
    }
}

/// The decoder round-trip law: when `positions` and `data` lay out the
/// entries of `items` as the packed encoding does — each entry's UTF-8
/// bytes at its offset, null-terminated, with positions re-based
/// against `base` — the layout is accepted and every decoded entry is
/// exactly the original.
pub proof fn lemma_packed_round_trip(
    items: Seq<Seq<char>>,
    positions: Seq<usize>,
    data: Seq<u8>,
    base: int,
)
    requires
        positions.len() == items.len(),
        data == flat_encoding(items),
        forall|i: int|
            0 <= i < items.len() ==> #[trigger] positions[i] == base + flat_offset(items, i),
    ensures
        layout_ok(positions, data, base),
        forall|i: int|
            0 <= i < items.len() ==> #[trigger] seg_bytes(positions, data, base, i) == encode_utf8(
                items[i],
            ),
        forall|i: int|
            0 <= i < items.len() ==> valid_utf8(#[trigger] seg_bytes(positions, data, base, i))
                && decode_utf8(seg_bytes(positions, data, base, i)) == items[i],
{
    lemma_flat_len(items);
    assert forall|i: int| 0 <= i < items.len() implies {
        &&& base <= #[trigger] positions[i]
        &&& seg_start(positions, base, i) <= seg_end(positions, data, base, i) <= data.len()
        &&& seg_bytes(positions, data, base, i) == encode_utf8(items[i])
    } by {
        lemma_flat_offset_mono(items, 0, i);
        lemma_flat_segment(items, i);
        if i < items.len() - 1 {
            assert(flat_offset(items, i + 1) == flat_offset(items, i) + encode_utf8(
                items[i],
            ).len() + 1);
            lemma_flat_offset_mono(items, i + 1, items.len() as int);
        } else {
            assert(flat_offset(items, items.len() as int) == flat_offset(items, i) + encode_utf8(
                items[i],
            ).len() + 1);
        }
        assert(seg_bytes(positions, data, base, i) =~= encode_utf8(items[i]));
    }
    assert forall|i: int| 0 <= i < items.len() implies valid_utf8(
        #[trigger] seg_bytes(positions, data, base, i),
    ) && decode_utf8(seg_bytes(positions, data, base, i)) == items[i] by {
        encode_utf8_valid_utf8(items[i]);
        encode_utf8_decode_utf8(items[i]);
    }
}

/// The least index of `=` in `s`, or the length of `s` when it holds
/// none.
pub open spec fn eq_index(s: Seq<char>) -> int
    decreases s.len(),
{
    if s.len() == 0 {
        0
    } else if s[0] == '=' {
        0
    } else {
        1 + eq_index(s.skip(1))
    }
}

/// The name part of an environment entry: everything before the first
/// `=`, or the whole entry when it holds none.
pub open spec fn split_name(s: Seq<char>) -> Seq<char> {
    s.take(eq_index(s))
}

/// The value part of an environment entry: everything after the first
/// `=`, or empty when the entry holds none.
pub open spec fn split_value(s: Seq<char>) -> Seq<char> {
    if eq_index(s) < s.len() {
        s.skip(eq_index(s) + 1)
    } else {
        Seq::empty()
    }
}

/// `eq_index` is the position of the first `=`.
pub proof fn lemma_eq_index(s: Seq<char>, k: int)
    requires
        0 <= k <= s.len(),
        forall|j: int| 0 <= j < k ==> s[j] != '=',
        k == s.len() || s[k] == '=',
    ensures
        eq_index(s) == k,
    decreases s.len(),
{
    if s.len() == 0 {
    } else if k == 0 {
    } else {
        assert(s[0] != '=');
        assert(forall|j: int| 0 <= j < k - 1 ==> #[trigger] s.skip(1)[j] == s[j + 1]);
        lemma_eq_index(s.skip(1), k - 1);
    }
}

/// Splits one environment entry into a name and a value on the first
/// `=`.  An entry without `=` becomes a name with an empty value.
pub fn split_env_entry(entry: &str) -> (r: EnvironmentalVariable)
    ensures
        r.name@ == split_name(entry@),
        r.value@ == split_value(entry@),
{
    let n = entry.unicode_len();
    let mut i: usize = 0;
    while i < n && entry.get_char(i) != '='
        invariant
            i <= n == entry@.len(),
            forall|j: int| 0 <= j < i ==> entry@[j] != '=',
        decreases n - i,
    {
        i = i + 1;
    }
    proof {
        lemma_eq_index(entry@, i as int);
    }
    let name = String::from_str(entry.substring_char(0, i));
    let value = if i < n {
        String::from_str(entry.substring_char(i + 1, n))
    } else {
        String::new()
    };
    EnvironmentalVariable { name, value }
}

/// What decoding environment entry text `s` must yield.
pub open spec fn env_of(e: EnvironmentalVariable, s: Seq<char>) -> bool {
    e.name@ == split_name(s) && e.value@ == split_value(s)
}

/// Decodes the packed environment buffer into name/value entries, in
/// table order.  Returns `None` exactly when the position table does
/// not describe entries lying within the buffer.
pub fn environment_variables(positions: &Vec<usize>, data: &Vec<u8>, base: usize) -> (r: Option<
    Vec<EnvironmentalVariable>,
>)
    ensures
        r is Some <==> layout_ok(positions@, data@, base as int),
        r matches Some(v) ==> {
            &&& v.len() == positions.len()
            &&& forall|i: int|
                0 <= i < v.len() ==> env_of(
                    #[trigger] v[i],
                    lossy_decode(seg_bytes(positions@, data@, base as int, i)),
                )
            &&& forall|i: int|
                0 <= i < v.len() && valid_utf8(seg_bytes(positions@, data@, base as int, i))
                    ==> env_of(#[trigger] v[i], decode_utf8(seg_bytes(positions@, data@, base as int, i)))
        },
{
    let entries = match decode_packed(positions, data, base) {
        Some(entries) => entries,
        None => {
            return None;
        },
    };
    let mut out: Vec<EnvironmentalVariable> = Vec::new();
    let mut i: usize = 0;
    while i < entries.len()
        invariant
            i <= entries.len() == positions.len(),
            out.len() == i,
            forall|k: int|
                0 <= k < entries.len() ==> decoded_seg(
                    #[trigger] entries[k]@,
                    positions@,
                    data@,
                    base as int,
                    k,
                ),
            forall|k: int|
                0 <= k < i ==> env_of(
                    #[trigger] out[k],
                    lossy_decode(seg_bytes(positions@, data@, base as int, k)),
                ),
            forall|k: int|
                0 <= k < i && valid_utf8(seg_bytes(positions@, data@, base as int, k)) ==> env_of(
                    #[trigger] out[k],
                    decode_utf8(seg_bytes(positions@, data@, base as int, k)),
                ),
        decreases entries.len() - i,
    {
        let e = split_env_entry(entries[i].as_str());
        out.push(e);
        i = i + 1;
    }
    Some(out)
}

} // verus!
