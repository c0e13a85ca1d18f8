//! Tensor names: the naming conventions of adapter files, the base name that groups the
//! components of one weight, and the filters over the names of a file.

use vstd::prelude::*;
use crate::text::{chars_of, seq_contains, spells, str_contains};

verus! {

/// The pieces of `s` between dots, in order; a text without dots is one piece.
pub open spec fn split_dots(s: Seq<char>) -> Seq<Seq<char>>
    decreases s.len(),
{
    if s.len() == 0 {
        seq![Seq::<char>::empty()]
    } else {
        let rest = split_dots(s.drop_last());
        if s.last() == '.' {
            rest.push(Seq::<char>::empty())
        } else {
            rest.update(rest.len() - 1, rest.last().push(s.last()))
        }
    }
}

/// The pieces of a tensor name that name a component of a weight rather than the weight: one
/// for every component that the reconstructions read.
pub open spec fn is_component_word(p: Seq<char>) -> bool {
    ||| p == "weight"@
    ||| p == "lora_up"@
    ||| p == "lora_down"@
    ||| p == "lora_A"@
    ||| p == "lora_B"@
    ||| p == "lokr_w1"@
    ||| p == "lokr_w2"@
    ||| p == "hada_w1_a"@
    ||| p == "hada_w1_b"@
    ||| p == "hada_w2_a"@
    ||| p == "hada_w2_b"@
    ||| p == "oft_diag"@
    ||| p == "oft_blocks"@
    ||| p == "alpha"@
    ||| p == "hada_t1"@
    ||| p == "hada_t2"@
    ||| p == "lokr_w1_a"@
    ||| p == "lokr_w1_b"@
    ||| p == "lokr_w2_a"@
    ||| p == "lokr_w2_b"@
    ||| p == "lokr_t2"@
    ||| p == "a1"@
    ||| p == "b1"@
    ||| p == "a2"@
    ||| p == "b2"@
}

/// The pieces that are not component words, joined by dots; an empty piece kept before any
/// other piece leaves no leading dot.
pub open spec fn join_kept(parts: Seq<Seq<char>>) -> Seq<char>
    decreases parts.len(),
{
    if parts.len() == 0 {
        Seq::<char>::empty()
    } else {
        let acc = join_kept(parts.drop_last());
        if is_component_word(parts.last()) {
            acc
        } else if acc.len() == 0 {
            parts.last()
        } else {
            acc + seq!['.'] + parts.last()
        }
    }
}

/// The base name of a tensor name: its pieces without the component words.
pub open spec fn base_name_of(name: Seq<char>) -> Seq<char> {
    join_kept(split_dots(name))
}

proof fn lemma_split_nonempty(s: Seq<char>)
    ensures
        split_dots(s).len() >= 1,
    decreases s.len(),
{
    if s.len() > 0 {
        lemma_split_nonempty(s.drop_last());
    }
}

proof fn lemma_split_sep(a: Seq<char>, b: Seq<char>)
    ensures
        split_dots(a + seq!['.'] + b) == split_dots(a) + split_dots(b),
    decreases b.len(),
{
    let s = a + seq!['.'] + b;
    if b.len() == 0 {
        assert(s.drop_last() =~= a);
        assert(split_dots(a) + split_dots(b) =~= split_dots(a).push(Seq::<char>::empty()));
    } else {
        let b1 = b.drop_last();
        lemma_split_sep(a, b1);
        lemma_split_nonempty(b1);
        lemma_split_nonempty(a);
        assert(s.drop_last() =~= a + seq!['.'] + b1);
        let l = split_dots(a);
        let r = split_dots(b1);
        if b.last() == '.' {
            assert((l + r).push(Seq::<char>::empty()) =~= l + r.push(Seq::<char>::empty()));
        } else {
            let lr = l + r;
            assert(lr.update(lr.len() - 1, lr.last().push(b.last())) =~= l + r.update(
                r.len() - 1,
                r.last().push(b.last()),
            ));
        }
    }
}

proof fn lemma_split_single(s: Seq<char>)
    requires
        !s.contains('.'),
    ensures
        split_dots(s) == seq![s],
    decreases s.len(),
{
    if s.len() == 0 {
        assert(s =~= Seq::<char>::empty());
    } else {
        let t = s.drop_last();
        assert(!t.contains('.')) by {
            if t.contains('.') {
                let k = choose|k: int| 0 <= k < t.len() && t[k] == '.';
                assert(s[k] == '.');
            }
        }
        lemma_split_single(t);
        assert(s.last() != '.') by {
            if s.last() == '.' {
                assert(s[s.len() - 1] == '.');
            }
        }
        assert(t.push(s.last()) =~= s);
        assert(seq![t].update(0, t.push(s.last())) =~= seq![s]);
    }
}

proof fn lemma_suffixed(base: Seq<char>, word: Seq<char>)
    requires
        !base.contains('.'),
        !word.contains('.'),
        !is_component_word(base),
        is_component_word(word),
    ensures
        base_name_of(base + seq!['.'] + word) == base,
{
    lemma_split_sep(base, word);
    lemma_split_single(base);
    lemma_split_single(word);
    let parts = seq![base, word];
    assert(seq![base] + seq![word] =~= parts);
    assert(parts.drop_last() =~= seq![base]);
    assert(seq![base].drop_last() =~= Seq::<Seq<char>>::empty());
    assert(join_kept(Seq::<Seq<char>>::empty()) == Seq::<char>::empty());
    assert(join_kept(seq![base]) == base);
    assert(join_kept(parts) == base);
}

/// Pieces joined by dots.
pub open spec fn joined(p: Seq<Seq<char>>) -> Seq<char>
    decreases p.len(),
{
    if p.len() == 0 {
        Seq::empty()
    } else if p.len() == 1 {
        p[0]
    } else {
        joined(p.drop_last()) + seq!['.'] + p.last()
    }
}

proof fn lemma_split_joined(p: Seq<Seq<char>>)
    requires
        p.len() >= 1,
        forall|i: int| 0 <= i < p.len() ==> !(#[trigger] p[i]).contains('.'),
    ensures
        split_dots(joined(p)) == p,
    decreases p.len(),
{
    if p.len() == 1 {
        lemma_split_single(p[0]);
        assert(seq![p[0]] =~= p);
    } else {
        let q = p.drop_last();
        assert forall|i: int| 0 <= i < q.len() implies !(#[trigger] q[i]).contains('.') by {
            assert(q[i] == p[i]);
        }
        lemma_split_joined(q);
        assert(!p[p.len() - 1].contains('.'));
        lemma_split_single(p.last());
        lemma_split_sep(joined(q), p.last());
        assert(q + seq![p.last()] =~= p);
    }
}

proof fn lemma_join_kept_joined(p: Seq<Seq<char>>)
    requires
        p.len() >= 1,
        p[0].len() > 0,
        forall|i: int| 0 <= i < p.len() ==> !is_component_word(#[trigger] p[i]),
    ensures
        join_kept(p) == joined(p),
        joined(p).len() > 0,
    decreases p.len(),
{
    if p.len() == 1 {
        assert(p.drop_last() =~= Seq::<Seq<char>>::empty());
        assert(join_kept(Seq::<Seq<char>>::empty()) == Seq::<char>::empty());
        assert(p.last() == p[0]);
    } else {
        let q = p.drop_last();
        assert(q[0] == p[0]);
        assert forall|i: int| 0 <= i < q.len() implies !is_component_word(#[trigger] q[i]) by {
            assert(q[i] == p[i]);
        }
        lemma_join_kept_joined(q);
        assert(!is_component_word(p[p.len() - 1]));
    }
}

/// The base name of a weight is recovered from the name of any of its components, also for a
/// base with dots: a base whose pieces contain no dot and are not component words, the first
/// one not empty, followed by a component word, with or without a trailing `.weight`.
pub proof fn lemma_dotted_base_name(pieces: Seq<Seq<char>>, word: Seq<char>)
    requires
        pieces.len() >= 1,
        pieces[0].len() > 0,
        forall|i: int| 0 <= i < pieces.len() ==> !(#[trigger] pieces[i]).contains('.') && !is_component_word(pieces[i]),
        !word.contains('.'),
        is_component_word(word),
    ensures
        base_name_of(joined(pieces) + seq!['.'] + word) == joined(pieces),
        base_name_of(joined(pieces) + seq!['.'] + word + ".weight"@) == joined(pieces),
{
    reveal_strlit(".weight");
    reveal_strlit("weight");
    let w = "weight"@;
    assert(!w.contains('.'));
    assert forall|i: int| 0 <= i < pieces.len() implies !is_component_word(#[trigger] pieces[i]) by {}
    lemma_join_kept_joined(pieces);
    let p1 = pieces.push(word);
    assert(p1.drop_last() =~= pieces);
    assert(joined(p1) == joined(pieces) + seq!['.'] + word);
    assert forall|i: int| 0 <= i < p1.len() implies !(#[trigger] p1[i]).contains('.') by {
        if i < pieces.len() {
            assert(p1[i] == pieces[i]);
        }
    }
    lemma_split_joined(p1);
    assert(join_kept(p1) == join_kept(pieces));
    let p2 = p1.push(w);
    assert(p2.drop_last() =~= p1);
    assert(joined(p2) == joined(p1) + seq!['.'] + w);
    assert(joined(pieces) + seq!['.'] + word + ".weight"@ =~= joined(p2));
    assert forall|i: int| 0 <= i < p2.len() implies !(#[trigger] p2[i]).contains('.') by {
        if i < p1.len() {
            assert(p2[i] == p1[i]);
        }
    }
    lemma_split_joined(p2);
    assert(join_kept(p2) == join_kept(p1));
}

/// The base name of a weight is recovered from the name of any of its components: the base
/// followed by a component word, with or without a trailing `.weight`, for every base without
/// dots that is not itself a component word.
pub proof fn lemma_base_name_of_component(base: Seq<char>, word: Seq<char>)
    requires
        !base.contains('.'),
        !is_component_word(base),
        !word.contains('.'),
        is_component_word(word),
    ensures
        base_name_of(base + seq!['.'] + word) == base,
        base_name_of(base + seq!['.'] + word + ".weight"@) == base,
{
    lemma_suffixed(base, word);
    reveal_strlit(".weight");
    reveal_strlit("weight");
    let w = "weight"@;
    assert(!w.contains('.'));
    assert(base + seq!['.'] + word + ".weight"@ =~= (base + seq!['.'] + word) + seq!['.'] + w);
    lemma_split_sep(base + seq!['.'] + word, w);
    lemma_split_sep(base, word);
    lemma_split_single(base);
    lemma_split_single(word);
    lemma_split_single(w);
    let p = seq![base, word, w];
    assert(seq![base] + seq![word] + seq![w] =~= p);
    assert(p.drop_last() =~= seq![base, word]);
    assert(seq![base, word].drop_last() =~= seq![base]);
    assert(seq![base].drop_last() =~= Seq::<Seq<char>>::empty());
    assert(join_kept(Seq::<Seq<char>>::empty()) == Seq::<char>::empty());
    assert(join_kept(seq![base]) == base);
    assert(join_kept(seq![base, word]) == base);
    assert(join_kept(p) == base);
}

/// The base name of a weight is recovered from the names of its up, down and alpha
/// components, for every base without dots that is not itself a component word.
pub proof fn lemma_base_name_round_trip(base: Seq<char>)
    requires
        !base.contains('.'),
        !is_component_word(base),
    ensures
        base_name_of(base + ".lora_up.weight"@) == base,
        base_name_of(base + ".lora_down.weight"@) == base,
        base_name_of(base + ".alpha"@) == base,
{
    reveal_strlit(".lora_up.weight");
    reveal_strlit(".lora_down.weight");
    reveal_strlit(".alpha");
    reveal_strlit("lora_up");
    reveal_strlit("lora_down");
    reveal_strlit("weight");
    reveal_strlit("alpha");
    let up = "lora_up"@;
    let down = "lora_down"@;
    let w = "weight"@;
    assert(!up.contains('.'));
    assert(!down.contains('.'));
    assert(!w.contains('.'));
    assert(!"alpha"@.contains('.'));
    // base.lora_up.weight
    assert(base + ".lora_up.weight"@ =~= (base + seq!['.'] + up) + seq!['.'] + w);
    lemma_split_sep(base + seq!['.'] + up, w);
    lemma_split_sep(base, up);
    lemma_split_single(base);
    lemma_split_single(up);
    lemma_split_single(w);
    let p1 = seq![base, up, w];
    assert(seq![base] + seq![up] + seq![w] =~= p1);
    assert(p1.drop_last() =~= seq![base, up]);
    assert(seq![base, up].drop_last() =~= seq![base]);
    assert(seq![base].drop_last() =~= Seq::<Seq<char>>::empty());
    assert(join_kept(Seq::<Seq<char>>::empty()) == Seq::<char>::empty());
    assert(join_kept(seq![base]) == base);
    assert(join_kept(seq![base, up]) == base);
    assert(join_kept(p1) == base);
    // base.lora_down.weight
    assert(base + ".lora_down.weight"@ =~= (base + seq!['.'] + down) + seq!['.'] + w);
    lemma_split_sep(base + seq!['.'] + down, w);
    lemma_split_sep(base, down);
    lemma_split_single(down);
    let p2 = seq![base, down, w];
    assert(seq![base] + seq![down] + seq![w] =~= p2);
    assert(p2.drop_last() =~= seq![base, down]);
    assert(seq![base, down].drop_last() =~= seq![base]);
    assert(join_kept(seq![base, down]) == base);
    assert(join_kept(p2) == base);
    // base.alpha
    assert(base + ".alpha"@ =~= base + seq!['.'] + "alpha"@);
    lemma_suffixed(base, "alpha"@);
}

fn is_component_word_exec(p: &str) -> (r: bool)
    ensures
        r == is_component_word(p@),
{
    let c = chars_of(p);
    spells(&c, "weight") || spells(&c, "lora_up") || spells(&c, "lora_down") || spells(
        &c,
        "lora_A",
    ) || spells(&c, "lora_B") || spells(&c, "lokr_w1") || spells(&c, "lokr_w2") || spells(
        &c,
        "hada_w1_a",
    ) || spells(&c, "hada_w1_b") || spells(&c, "hada_w2_a") || spells(&c, "hada_w2_b")
        || spells(&c, "oft_diag") || spells(&c, "oft_blocks") || spells(&c, "alpha") || spells(
        &c,
        "hada_t1",
    ) || spells(&c, "hada_t2") || spells(&c, "lokr_w1_a") || spells(&c, "lokr_w1_b") || spells(
        &c,
        "lokr_w2_a",
    ) || spells(&c, "lokr_w2_b") || spells(&c, "lokr_t2") || spells(&c, "a1") || spells(&c, "b1")
        || spells(&c, "a2") || spells(&c, "b2")
}

/// Adds one piece to a base name under construction.
fn keep_piece(acc: &mut String, piece: &str, Ghost(parts): Ghost<Seq<Seq<char>>>)
    requires
        old(acc)@ == join_kept(parts),
    ensures
        final(acc)@ == join_kept(parts.push(piece@)),
{
    assert(parts.push(piece@).drop_last() =~= parts);
    if is_component_word_exec(piece) {
    } else if acc.unicode_len() == 0 {
        acc.append(piece);
        assert(final(acc)@ =~= piece@);
    } else {
        proof {
            reveal_strlit(".");
        }
        acc.append(".");
        acc.append(piece);
    }
}

/// The base name that a tensor name belongs to: the name split at dots, without the pieces
/// that name a component, joined again by dots.
pub fn get_base_name(name: &str) -> (r: String)
    ensures
        r@ == base_name_of(name@),
{
    let chars = chars_of(name);
    let n = chars.len();
    let mut result = String::new();
    let mut start: usize = 0;
    let mut i: usize = 0;
    let ghost mut done: Seq<Seq<char>> = Seq::empty();
    assert(chars@.subrange(0, 0) =~= Seq::<char>::empty());
    assert(split_dots(Seq::<char>::empty()) =~= done.push(chars@.subrange(0, 0)));
    while i < n
        invariant
            chars@ == name@,
            n == chars@.len(),
            start <= i <= n,
            split_dots(chars@.subrange(0, i as int)) == done.push(chars@.subrange(start as int, i as int)),
            result@ == join_kept(done),
        decreases n - i,
    {
        let ghost prefix = chars@.subrange(0, i as int);
        let ghost next = chars@.subrange(0, i + 1);
        assert(next.drop_last() =~= prefix);
        assert(next.last() == chars@[i as int]);
        if chars[i] == '.' {
            let piece = name.substring_char(start, i);
            keep_piece(&mut result, piece, Ghost(done));
            proof {
                done = done.push(chars@.subrange(start as int, i as int));
                assert(chars@.subrange(i + 1, i + 1) =~= Seq::<char>::empty());
            }
            start = i + 1;
        } else {
            proof {
                let d = done.push(chars@.subrange(start as int, i as int));
                assert(chars@.subrange(start as int, i as int).push(chars@[i as int])
                    =~= chars@.subrange(start as int, i + 1));
                assert(d.update(d.len() - 1, d.last().push(chars@[i as int])) =~= done.push(
                    chars@.subrange(start as int, i + 1),
                ));
            }
        }
        i = i + 1;
    }
    let piece = name.substring_char(start, n);
    keep_piece(&mut result, piece, Ghost(done));
    assert(chars@.subrange(0, n as int) =~= name@);
    result
}

/// The naming convention of the tensors in a file.
#[derive(Debug, Clone, Copy, PartialEq, Eq, Structural)]
pub enum LoRAFormat {
    /// Up and down factors under `.lora_up.weight` / `.lora_down.weight`, with an alpha tensor.
    Kohya,
    /// The decomposition library's names.
    Lycoris,
    /// `.lora_B.weight` / `.lora_A.weight`, with no alpha tensor.
    Peft,
}

/// How many names, from the start, the format detection looks at.
pub const FORMAT_SAMPLE: usize = 10;

/// The views of a list of names.
pub open spec fn names_of(keys: Seq<String>) -> Seq<Seq<char>> {
    keys.map_values(|k: String| k@)
}

/// A name that only the parameter-efficient convention produces.
pub open spec fn has_peft_marker(k: Seq<char>) -> bool {
    seq_contains(k, "transformer."@) || seq_contains(k, "diffusion_model."@)
}

/// One of the first names of `keys` carries a parameter-efficient marker.
pub open spec fn is_peft_spec(keys: Seq<Seq<char>>) -> bool {
    exists|i: int| 0 <= i < keys.len() && i < FORMAT_SAMPLE && has_peft_marker(#[trigger] keys[i])
}

/// The naming convention that the sampled names show.
pub open spec fn detect_spec(keys: Seq<Seq<char>>) -> LoRAFormat {
    if is_peft_spec(keys) {
        LoRAFormat::Peft
    } else {
        LoRAFormat::Kohya
    }
}

/// The names that format detection looks at: the first ones, at most `FORMAT_SAMPLE` of them.
pub open spec fn format_sample(keys: Seq<Seq<char>>) -> Seq<Seq<char>> {
    if keys.len() <= FORMAT_SAMPLE {
        keys
    } else {
        keys.subrange(0, FORMAT_SAMPLE as int)
    }
}

/// Format detection is a function of the sampled names alone: lists that agree on their
/// first names get the same naming convention, whatever follows.
pub proof fn lemma_detect_deterministic(a: Seq<Seq<char>>, b: Seq<Seq<char>>)
    requires
        format_sample(a) == format_sample(b),
    ensures
        detect_spec(a) == detect_spec(b),
{
    assert(is_peft_spec(a) == is_peft_spec(b)) by {
        if is_peft_spec(a) {
            let i = choose|i: int| 0 <= i < a.len() && i < FORMAT_SAMPLE && has_peft_marker(#[trigger] a[i]);
            assert(format_sample(a)[i] == a[i]);
            assert(b[i] == format_sample(b)[i]);
        }
        if is_peft_spec(b) {
            let i = choose|i: int| 0 <= i < b.len() && i < FORMAT_SAMPLE && has_peft_marker(#[trigger] b[i]);
            assert(format_sample(b)[i] == b[i]);
            assert(a[i] == format_sample(a)[i]);
        }
    }
}

fn has_peft_marker_exec(k: &str) -> (r: bool)
    ensures
        r == has_peft_marker(k@),
{
    str_contains(k, "transformer.") || str_contains(k, "diffusion_model.")
}

/// Whether one of the first names carries a parameter-efficient marker.
pub fn is_peft(keys: &Vec<String>) -> (r: bool)
    ensures
        r == is_peft_spec(names_of(keys@)),
{
    let mut i: usize = 0;
    while i < keys.len() && i < FORMAT_SAMPLE
        invariant
            i <= keys@.len(),
            i <= FORMAT_SAMPLE,
            forall|j: int| 0 <= j < i ==> !has_peft_marker(#[trigger] names_of(keys@)[j]),
        decreases keys.len() - i,
    {
        if has_peft_marker_exec(keys[i].as_str()) {
            assert(has_peft_marker(names_of(keys@)[i as int]));
            return true;
        }
        i = i + 1;
    }
    false
}

/// The naming convention of a file, from its names in the order the file lists them.
pub fn detect_format(keys: &Vec<String>) -> (r: LoRAFormat)
    ensures
        r == detect_spec(names_of(keys@)),
{
    if is_peft(keys) {
        LoRAFormat::Peft
    } else {
        LoRAFormat::Kohya
    }
}

/// `base` followed by `suffix`.
pub fn with_suffix(base: &str, suffix: &str) -> (r: String)
    ensures
        r@ == base@ + suffix@,
{
    let mut s = String::from_str(base);
    s.append(suffix);
    s
}

/// The suffix of the up factor under a naming convention.
pub open spec fn up_suffix(format: LoRAFormat) -> Seq<char> {
    if format == LoRAFormat::Peft {
        ".lora_B.weight"@
    } else {
        ".lora_up.weight"@
    }
}

/// The suffix of the down factor under a naming convention.
pub open spec fn down_suffix(format: LoRAFormat) -> Seq<char> {
    if format == LoRAFormat::Peft {
        ".lora_A.weight"@
    } else {
        ".lora_down.weight"@
    }
}

/// The name of the up factor of `base`.
pub fn up_key(format: LoRAFormat, base: &str) -> (r: String)
    ensures
        r@ == base@ + up_suffix(format),
{
    match format {
        LoRAFormat::Peft => with_suffix(base, ".lora_B.weight"),
        _ => with_suffix(base, ".lora_up.weight"),
    }
}

/// The name of the down factor of `base`.
pub fn down_key(format: LoRAFormat, base: &str) -> (r: String)
    ensures
        r@ == base@ + down_suffix(format),
{
    match format {
        LoRAFormat::Peft => with_suffix(base, ".lora_A.weight"),
        _ => with_suffix(base, ".lora_down.weight"),
    }
}

/// The names of `keys` that contain `pattern`.
pub open spec fn with_pattern(keys: Seq<Seq<char>>, pattern: Seq<char>) -> Seq<Seq<char>> {
    keys.filter(|k: Seq<char>| seq_contains(k, pattern))
}

/// The names that contain `pattern`, in the order of `keys`.
pub fn keys_by_key(keys: &Vec<String>, pattern: &str) -> (r: Vec<String>)
    ensures
        names_of(r@) == with_pattern(names_of(keys@), pattern@),
{
    let ghost pred = |k: Seq<char>| seq_contains(k, pattern@);
    let mut r: Vec<String> = Vec::new();
    let mut i: usize = 0;
    while i < keys.len()
        invariant
            i <= keys@.len(),
            pred == (|k: Seq<char>| seq_contains(k, pattern@)),
            names_of(r@) == names_of(keys@).subrange(0, i as int).filter(pred),
        decreases keys.len() - i,
    {
        let ghost before = names_of(keys@).subrange(0, i as int);
        let ghost after = names_of(keys@).subrange(0, i + 1);
        proof {
            reveal(Seq::filter);
        }
        assert(after.drop_last() =~= before);
        assert(after.last() == keys@[i as int]@);
        if str_contains(keys[i].as_str(), pattern) {
            r.push(keys[i].clone());
            assert(names_of(r@) =~= before.filter(pred).push(keys@[i as int]@));
            assert(names_of(r@) == after.filter(pred));
        } else {
            assert(names_of(r@) == after.filter(pred));
        }
        i = i + 1;
    }
    assert(names_of(keys@).subrange(0, keys@.len() as int) =~= names_of(keys@));
    r
}

/// The names that identify a weight: its main tensor or the first factor of a decomposition.
pub open spec fn is_weight_key(k: Seq<char>) -> bool {
    ||| seq_contains(k, "weight"@)
    ||| seq_contains(k, "hada_w1"@)
    ||| seq_contains(k, "lokr_w1"@)
    ||| seq_contains(k, "oft_diag"@)
    ||| seq_contains(k, "oft_block"@)
    ||| seq_contains(k, "a1"@)
    ||| seq_contains(k, "b1"@)
    ||| seq_contains(k, "a2"@)
    ||| seq_contains(k, "b2"@)
}

/// The weight-bearing names, gathered pattern by pattern; a name that matches several patterns
/// appears once for each.
pub open spec fn weight_keys_spec(keys: Seq<Seq<char>>) -> Seq<Seq<char>> {
    with_pattern(keys, "weight"@) + with_pattern(keys, "hada_w1"@) + with_pattern(keys, "lokr_w1"@)
        + with_pattern(keys, "oft_diag"@) + with_pattern(keys, "oft_block"@) + with_pattern(
        keys,
        "a1"@,
    ) + with_pattern(keys, "b1"@) + with_pattern(keys, "a2"@) + with_pattern(keys, "b2"@)
}

/// The base names of the weight-bearing names of `keys`.
pub open spec fn base_name_set(keys: Seq<Seq<char>>) -> Set<Seq<char>>
    decreases keys.len(),
{
    if keys.len() == 0 {
        Set::empty()
    } else {
        let s = base_name_set(keys.drop_last());
        if is_weight_key(keys.last()) {
            s.insert(base_name_of(keys.last()))
        } else {
            s
        }
    }
}

fn extend_names(r: &mut Vec<String>, more: Vec<String>)
    ensures
        names_of(final(r)@) == names_of(old(r)@) + names_of(more@),
{
    let mut more = more;
    let ghost a = r@;
    let ghost b = more@;
    r.append(&mut more);
    assert(names_of(r@) =~= names_of(a) + names_of(b));
}

/// The weight-bearing names of a file, pattern by pattern.
pub fn weight_keys(keys: &Vec<String>) -> (r: Vec<String>)
    ensures
        names_of(r@) == weight_keys_spec(names_of(keys@)),
{
    let mut r = keys_by_key(keys, "weight");
    extend_names(&mut r, keys_by_key(keys, "hada_w1"));
    extend_names(&mut r, keys_by_key(keys, "lokr_w1"));
    extend_names(&mut r, keys_by_key(keys, "oft_diag"));
    extend_names(&mut r, keys_by_key(keys, "oft_block"));
    extend_names(&mut r, keys_by_key(keys, "a1"));
    extend_names(&mut r, keys_by_key(keys, "b1"));
    extend_names(&mut r, keys_by_key(keys, "a2"));
    extend_names(&mut r, keys_by_key(keys, "b2"));
    r
}

fn is_weight_key_exec(k: &str) -> (r: bool)
    ensures
        r == is_weight_key(k@),
{
    str_contains(k, "weight") || str_contains(k, "hada_w1") || str_contains(k, "lokr_w1")
        || str_contains(k, "oft_diag") || str_contains(k, "oft_block") || str_contains(k, "a1")
        || str_contains(k, "b1") || str_contains(k, "a2") || str_contains(k, "b2")
}

/// Whether `b` is one of `list`.
pub fn contains_name(list: &Vec<String>, b: &String) -> (r: bool)
    ensures
        r == names_of(list@).contains(b@),
{
    let mut j: usize = 0;
    while j < list.len()
        invariant
            j <= list@.len(),
            forall|k: int| 0 <= k < j ==> names_of(list@)[k] != b@,
        decreases list.len() - j,
    {
        if list[j] == *b {
            assert(names_of(list@)[j as int] == b@);
            return true;
        }
        j = j + 1;
    }
    false
}

/// The distinct base names of the weight-bearing names of a file, in the order in which they
/// first appear.
pub fn base_names(keys: &Vec<String>) -> (r: Vec<String>)
    ensures
        names_of(r@).no_duplicates(),
        names_of(r@).to_set() == base_name_set(names_of(keys@)),
{
    let mut r: Vec<String> = Vec::new();
    let mut i: usize = 0;
    assert(names_of(r@).to_set() =~= Set::empty());
    assert(names_of(keys@).subrange(0, 0) =~= Seq::<Seq<char>>::empty());
    while i < keys.len()
        invariant
            i <= keys@.len(),
            names_of(r@).no_duplicates(),
            names_of(r@).to_set() == base_name_set(names_of(keys@).subrange(0, i as int)),
        decreases keys.len() - i,
    {
        let ghost before = names_of(keys@).subrange(0, i as int);
        let ghost after = names_of(keys@).subrange(0, i + 1);
        assert(after.drop_last() =~= before);
        assert(after.last() == keys@[i as int]@);
        if is_weight_key_exec(keys[i].as_str()) {
            let b = get_base_name(keys[i].as_str());
            if !contains_name(&r, &b) {
                let ghost old_names = names_of(r@);
                r.push(b);
                assert(names_of(r@) =~= old_names.push(b@));
                proof {
                    old_names.lemma_push_to_set_commute(b@);
                }
            } else {
                assert(names_of(r@).to_set() =~= names_of(r@).to_set().insert(b@));
            }
        }
        i = i + 1;
    }
    assert(names_of(keys@).subrange(0, keys@.len() as int) =~= names_of(keys@));
    r
}

} // verus!
