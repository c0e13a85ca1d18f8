//! Grouping of weights into the numbered blocks of a model, as the reports draw them.

use vstd::prelude::*;
use crate::text::{chars_of, occurs_at, seq_contains, str_contains};
use crate::network::{parse_usize, usize_spec};

verus! {

/// The first position, from `from` on, at which `needle` occurs in `hay`.
pub open spec fn first_from(hay: Seq<char>, needle: Seq<char>, from: int) -> Option<int>
    decreases hay.len() + 1 - from,
{
    if from < 0 || from + needle.len() > hay.len() {
        None
    } else if occurs_at(hay, needle, from) {
        Some(from)
    } else {
        first_from(hay, needle, from + 1)
    }
}

/// The kind of block a weight name belongs to.
pub open spec fn block_type(name: Seq<char>) -> Seq<char> {
    if seq_contains(name, "single"@) {
        "single"@
    } else if seq_contains(name, "double"@) {
        "double"@
    } else {
        "unknown"@
    }
}

/// The block of a weight name: after the first `blocks_`, the text up to the next `_` is the
/// block's number, and the block is named by its kind and that number. `None` for a name
/// without such a number.
pub open spec fn block_info_spec(name: Seq<char>) -> Option<Seq<char>> {
    match first_from(name, "blocks_"@, 0) {
        None => None,
        Some(i) => {
            let start = i + "blocks_"@.len();
            match first_from(name, seq!['_'], start) {
                None => None,
                Some(j) => Some(block_type(name) + seq!['_'] + name.subrange(start, j)),
            }
        },
    }
}

/// The first position, from `from` on, at which `needle` occurs in `hay`.
fn find_from(hay: &Vec<char>, needle: &Vec<char>, from: usize) -> (r: Option<usize>)
    ensures
        r matches Some(i) ==> first_from(hay@, needle@, from as int) == Some(i as int) && from <= i
            && i + needle@.len() <= hay@.len() && occurs_at(hay@, needle@, i as int),
        r is None ==> first_from(hay@, needle@, from as int) is None,
    decreases hay@.len() + 1 - from,
{
    if from > hay.len() || needle.len() > hay.len() - from {
        return None;
    }
    let hl = hay.len();
    let mut j: usize = 0;
    let mut hit = true;
    while j < needle.len()
        invariant
            hl == hay@.len(),
            from + needle@.len() <= hay@.len(),
            j <= needle@.len(),
            hit == (forall|k: int| 0 <= k < j ==> hay@[from + k] == needle@[k]),
        decreases needle.len() - j,
    {
        if hay[from + j] != needle[j] {
            hit = false;
        }
        j = j + 1;
    }
    if hit {
        assert(hay@.subrange(from as int, from + needle@.len()) =~= needle@);
        Some(from)
    } else {
        assert(!occurs_at(hay@, needle@, from as int)) by {
            if occurs_at(hay@, needle@, from as int) {
                assert forall|k: int| 0 <= k < needle@.len() implies hay@[from + k] == needle@[k] by {
                    assert(hay@.subrange(from as int, from + needle@.len())[k] == needle@[k]);
                }
            }
        }
        find_from(hay, needle, from + 1)
    }
}

fn push_all(s: &mut String, c: &str)
    ensures
        final(s)@ == old(s)@ + c@,
{
    s.append(c);
}

/// The block that a weight name belongs to, and the name itself; `None` when the name has no
/// numbered block.
pub fn parse_block_info(weight_name: &str) -> (r: Option<(String, String)>)
    ensures
        match block_info_spec(weight_name@) {
            None => r is None,
            Some(k) => r matches Some((key, name)) && key@ == k && name@ == weight_name@,
        },
{
    proof {
        reveal_strlit("blocks_");
        reveal_strlit("_");
    }
    let name = chars_of(weight_name);
    let marker = chars_of("blocks_");
    let under = chars_of("_");
    assert(under@ =~= seq!['_']);
    assert(marker@ == "blocks_"@);
    let i = match find_from(&name, &marker, 0) {
        Some(i) => i,
        None => return None,
    };
    let nl = name.len();
    assert(i + marker@.len() <= nl);
    let start = i + marker.len();
    let j = match find_from(&name, &under, start) {
        Some(j) => j,
        None => return None,
    };
    assert(occurs_at(name@, under@, j as int));
    let kind = if str_contains(weight_name, "single") {
        "single"
    } else if str_contains(weight_name, "double") {
        "double"
    } else {
        "unknown"
    };
    let mut key = String::from_str(kind);
    push_all(&mut key, "_");
    push_all(&mut key, weight_name.substring_char(start, j));
    Some((key, String::from_str(weight_name)))
}

/// The order of two texts by their characters' code points, as `-1`, `0` or `1`.
pub open spec fn lex_cmp(a: Seq<char>, b: Seq<char>) -> int
    decreases a.len(),
{
    if a.len() == 0 && b.len() == 0 {
        0
    } else if a.len() == 0 {
        -1
    } else if b.len() == 0 {
        1
    } else if (a[0] as u32) < (b[0] as u32) {
        -1
    } else if (a[0] as u32) > (b[0] as u32) {
        1
    } else {
        lex_cmp(a.drop_first(), b.drop_first())
    }
}

/// The kind of a block key: the text before its first `_`.
pub open spec fn block_kind(k: Seq<char>) -> Seq<char> {
    match first_from(k, seq!['_'], 0) {
        Some(i) => k.subrange(0, i),
        None => k,
    }
}

/// The number of a block key: the text after its first `_`, up to the next one, read as a
/// count; 0 when it is not one.
pub open spec fn block_number(k: Seq<char>) -> usize {
    let text = match first_from(k, seq!['_'], 0) {
        None => Seq::<char>::empty(),
        Some(i) => match first_from(k, seq!['_'], i + 1) {
            Some(j) => k.subrange(i + 1, j),
            None => k.subrange(i + 1, k.len() as int),
        },
    };
    match usize_spec(text) {
        Some(n) => n,
        None => 0,
    }
}

/// The order of two block keys as the report lists them: by kind, then by number.
pub open spec fn block_order(a: Seq<char>, b: Seq<char>) -> int {
    let c = lex_cmp(block_kind(a), block_kind(b));
    if c != 0 {
        c
    } else if block_number(a) < block_number(b) {
        -1
    } else if block_number(a) > block_number(b) {
        1
    } else {
        0
    }
}

fn lex_cmp_exec(a: &Vec<char>, b: &Vec<char>) -> (r: i8)
    ensures
        r as int == lex_cmp(a@, b@),
{
    let mut i: usize = 0;
    assert(a@.subrange(0, a@.len() as int) =~= a@);
    assert(b@.subrange(0, b@.len() as int) =~= b@);
    while i < a.len() && i < b.len()
        invariant
            i <= a@.len(),
            i <= b@.len(),
            lex_cmp(a@, b@) == lex_cmp(a@.subrange(i as int, a@.len() as int), b@.subrange(i as int, b@.len() as int)),
        decreases a.len() - i,
    {
        let x = a[i] as u32;
        let y = b[i] as u32;
        let ghost sa = a@.subrange(i as int, a@.len() as int);
        let ghost sb = b@.subrange(i as int, b@.len() as int);
        assert(sa[0] == a@[i as int]);
        assert(sb[0] == b@[i as int]);
        if x < y {
            return -1;
        }
        if x > y {
            return 1;
        }
        assert(sa.drop_first() =~= a@.subrange(i + 1, a@.len() as int));
        assert(sb.drop_first() =~= b@.subrange(i + 1, b@.len() as int));
        i = i + 1;
    }
    let ghost sa = a@.subrange(i as int, a@.len() as int);
    let ghost sb = b@.subrange(i as int, b@.len() as int);
    if i == a.len() && i == b.len() {
        assert(sa.len() == 0 && sb.len() == 0);
        0
    } else if i == a.len() {
        -1
    } else {
        1
    }
}

fn block_parts(k: &str) -> (r: (Vec<char>, usize))
    ensures
        r.0@ == block_kind(k@),
        r.1 == block_number(k@),
{
    let c = chars_of(k);
    let under = chars_of("_");
    proof {
        reveal_strlit("_");
    }
    assert(under@ =~= seq!['_']);
    let n = c.len();
    match find_from(&c, &under, 0) {
        None => {
            let ghost e = Seq::<char>::empty();
            assert(usize_spec(e) is None);
            (c, 0)
        },
        Some(i) => {
            let mut kind: Vec<char> = Vec::new();
            let mut x: usize = 0;
            while x < i
                invariant
                    x <= i,
                    i < c@.len(),
                    kind@ == c@.subrange(0, x as int),
                decreases i - x,
            {
                kind.push(c[x]);
                x = x + 1;
                assert(kind@ =~= c@.subrange(0, x as int));
            }
            let end = match find_from(&c, &under, i + 1) {
                Some(j) => j,
                None => n,
            };
            let text = k.substring_char(i + 1, end);
            let num = match parse_usize(text) {
                Some(v) => v,
                None => 0,
            };
            (kind, num)
        },
    }
}

/// The order of two block keys as the report lists them: `-1` when `a` comes first, `1` when
/// `b` does, `0` when they tie.
pub fn compare_block_keys(a: &str, b: &str) -> (r: i8)
    ensures
        r as int == block_order(a@, b@),
{
    let (ka, na) = block_parts(a);
    let (kb, nb) = block_parts(b);
    let c = lex_cmp_exec(&ka, &kb);
    if c != 0 {
        c
    } else if na < nb {
        -1
    } else if na > nb {
        1
    } else {
        0
    }
}

} // verus!
