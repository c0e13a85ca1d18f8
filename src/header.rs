//! The check that a tensor file's header keeps its data ranges within the buffer, made before
//! the header's reader adds the range ends to the header size without an overflow check.

use vstd::prelude::*;
use vstd::slice::slice_subrange;

verus! {

/// The value of bytes read as a little-endian unsigned integer.
pub open spec fn le_value(b: Seq<u8>) -> int
    decreases b.len(),
{
    if b.len() == 0 {
        0
    } else {
        b[0] as int + 256 * le_value(b.drop_first())
    }
}

/// `256` to the power `k`.
pub open spec fn pow256(k: nat) -> int
    decreases k,
{
    if k == 0 {
        1
    } else {
        256 * pow256((k - 1) as nat)
    }
}

/// The end of the data range of each entry of a tensor file's JSON header, in the order of the
/// entries, `None` for an entry without one; `None` overall for text that is not a JSON object.
pub uninterp spec fn offset_ends(text: Seq<u8>) -> Option<Seq<Option<u64>>>;

/// Relies on serde_json::from_slice, then on serde_json::Value::as_object and, for each entry
/// of the object, serde_json::Value::get and serde_json::Value::as_u64: the second number of
/// each entry's `data_offsets`.
#[verifier::external_body]
fn json_offset_ends(text: &[u8]) -> (r: Option<Vec<Option<u64>>>)
    ensures
        match r {
            Some(v) => offset_ends(text@) == Some(v@),
            None => offset_ends(text@) is None,
        },
{
    serde_json::from_slice::<serde_json::Value>(text).ok().and_then(|v| v.as_object().map(|o| o.values().map(|t| t.get("data_offsets").and_then(|d| d.get(1)).and_then(|e| e.as_u64())).collect()))
}

/// The header length that a tensor file's first eight bytes give.
pub open spec fn header_length(buffer: Seq<u8>) -> int {
    le_value(buffer.subrange(0, 8))
}

/// Every data range that the header of the bytes `buffer` lists ends within the buffer; a
/// buffer too short for its header, or whose header is not a JSON object, is not held to it.
pub open spec fn header_fits(buffer: Seq<u8>) -> bool {
    let n = header_length(buffer);
    ||| buffer.len() < 8
    ||| n + 8 > buffer.len()
    ||| match offset_ends(buffer.subrange(8, n + 8)) {
        None => true,
        Some(es) => forall|i: int| 0 <= i < es.len() && (#[trigger] es[i]) is Some ==> es[i]->0 <= buffer.len(),
    }
}

/// Whether every data range that the header lists ends within the buffer.
pub fn header_within_buffer(buffer: &[u8]) -> (r: bool)
    ensures
        r == header_fits(buffer@),
{
    let len = buffer.len();
    if len < 8 {
        return true;
    }
    let mut v: u128 = 0;
    let mut j: usize = 8;
    proof {
        reveal_with_fuel(pow256, 9);
    }
    assert(buffer@.subrange(8, 8) =~= Seq::<u8>::empty());
    while j > 0
        invariant
            j <= 8,
            len == buffer@.len(),
            len >= 8,
            v == le_value(buffer@.subrange(j as int, 8)),
            0 <= v < pow256((8 - j) as nat),
            pow256(8) == 18446744073709551616,
        decreases j,
    {
        let b = buffer[j - 1];
        let ghost s = buffer@.subrange(j - 1, 8);
        assert(s.drop_first() =~= buffer@.subrange(j as int, 8));
        assert(pow256((8 - (j - 1)) as nat) == 256 * pow256((8 - j) as nat));
        assert(b as int + 256 * v < 256 * pow256((8 - j) as nat)) by (nonlinear_arith)
            requires
                v < pow256((8 - j) as nat),
                b < 256,
        ;
        assert(pow256((8 - j) as nat) <= pow256(8)) by {
            lemma_pow_mono((8 - j) as nat, 8);
        }
        v = b as u128 + 256 * v;
        j = j - 1;
    }
    assert(buffer@.subrange(0, 8) == buffer@.subrange(j as int, 8));
    if v + 8 > len as u128 {
        return true;
    }
    let n = v as usize;
    let text = slice_subrange(buffer, 8, n + 8);
    assert(text@ == buffer@.subrange(8, header_length(buffer@) + 8));
    match json_offset_ends(text) {
        None => true,
        Some(es) => {
            let mut i: usize = 0;
            while i < es.len()
                invariant
                    i <= es@.len(),
                    len == buffer@.len(),
                    len >= 8,
                    header_length(buffer@) + 8 <= len,
                    offset_ends(buffer@.subrange(8, header_length(buffer@) + 8)) == Some(es@),
                    forall|k: int| 0 <= k < i && (#[trigger] es@[k]) is Some ==> es@[k]->0 <= len,
                decreases es.len() - i,
            {
                match es[i] {
                    Some(e) => {
                        if e as u128 > len as u128 {
                            assert(es@[i as int] is Some && es@[i as int]->0 > buffer@.len());
                            return false;
                        }
                    },
                    None => {},
                }
                i = i + 1;
            }
            true
        },
    }
}

proof fn lemma_pow_mono(a: nat, b: nat)
    requires
        a <= b,
    ensures
        1 <= pow256(a) <= pow256(b),
    decreases b,
{
    if b > 0 {
        if a < b {
            lemma_pow_mono(a, (b - 1) as nat);
        } else {
            lemma_pow_mono((a - 1) as nat, (b - 1) as nat);
        }
    }
}

} // verus!
