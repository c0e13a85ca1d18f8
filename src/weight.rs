//! The tensors of one file, resolved by name, and the reconstruction of each weight from them.

use vstd::prelude::*;
use crate::InspectorError;
use crate::keys::{
    base_names, detect_format, detect_spec, down_key, down_suffix, keys_by_key, names_of,
    up_key, up_suffix, weight_keys, with_pattern, with_suffix, LoRAFormat,
};
use crate::reconstruct::{
    compat_expr, hada_product, kron_expr, lora_dtype, lora_product, low_rank_expr, maybe_scale_expr,
    mm, scale_expr, tucker_expr,
    alpha_ok, glora_ok, hada_ok, hada_tucker_ok, kron_fits, lora_ok, meta, product_ok, tucker_ok,
    backend, factor_expr, factor_shape, glora_delta, glora_shape, hada_delta, hada_shape, lokr_delta,
    lokr_shape, lora_delta, lora_shape, tucker_shape, Factor,
};
use crate::network::NetworkType;
use crate::tensor::{copy_array, shape_fits, Array, StoredDType, TensorExpr};
use crate::text::{seq_contains, spells, str_contains};
use crate::header::{header_fits, header_within_buffer};

verus! {

#[verifier::external_type_specification]
#[verifier::external_body]
pub struct ExBufferedSafetensors(candle_core::safetensors::BufferedSafetensors);

/// What the header of a file says of one tensor.
#[derive(Debug, Clone)]
pub struct TensorInfo {
    pub name: String,
    pub shape: Vec<usize>,
    pub dtype: StoredDType,
}

/// The element type that the header names, as the header's reader spells it.
pub open spec fn dtype_spec(s: Seq<char>) -> StoredDType {
    if s == "BOOL"@ {
        StoredDType::Bool
    } else if s == "U8"@ {
        StoredDType::U8
    } else if s == "I8"@ {
        StoredDType::I8
    } else if s == "F8_E5M2"@ {
        StoredDType::F8E5M2
    } else if s == "F8_E4M3"@ {
        StoredDType::F8E4M3
    } else if s == "I16"@ {
        StoredDType::I16
    } else if s == "U16"@ {
        StoredDType::U16
    } else if s == "F16"@ {
        StoredDType::F16
    } else if s == "BF16"@ {
        StoredDType::BF16
    } else if s == "I32"@ {
        StoredDType::I32
    } else if s == "U32"@ {
        StoredDType::U32
    } else if s == "F32"@ {
        StoredDType::F32
    } else if s == "F64"@ {
        StoredDType::F64
    } else if s == "I64"@ {
        StoredDType::I64
    } else if s == "U64"@ {
        StoredDType::U64
    } else {
        StoredDType::Unknown
    }
}

/// The element type that the header names.
pub fn dtype_from_name(s: &str) -> (r: StoredDType)
    ensures
        r == dtype_spec(s@),
{
    let c = crate::text::chars_of(s);
    if spells(&c, "BOOL") {
        StoredDType::Bool
    } else if spells(&c, "U8") {
        StoredDType::U8
    } else if spells(&c, "I8") {
        StoredDType::I8
    } else if spells(&c, "F8_E5M2") {
        StoredDType::F8E5M2
    } else if spells(&c, "F8_E4M3") {
        StoredDType::F8E4M3
    } else if spells(&c, "I16") {
        StoredDType::I16
    } else if spells(&c, "U16") {
        StoredDType::U16
    } else if spells(&c, "F16") {
        StoredDType::F16
    } else if spells(&c, "BF16") {
        StoredDType::BF16
    } else if spells(&c, "I32") {
        StoredDType::I32
    } else if spells(&c, "U32") {
        StoredDType::U32
    } else if spells(&c, "F32") {
        StoredDType::F32
    } else if spells(&c, "F64") {
        StoredDType::F64
    } else if spells(&c, "I64") {
        StoredDType::I64
    } else if spells(&c, "U64") {
        StoredDType::U64
    } else {
        StoredDType::Unknown
    }
}

/// The tensors that the header of a tensor file lists, each name with its shape and its
/// element type as the header's reader spells it; `None` for bytes that are not a tensor file.
pub uninterp spec fn file_tensors(buffer: Seq<u8>) -> Option<Map<Seq<char>, (Seq<usize>, Seq<char>)>>;

/// The tensors that an opened tensor file holds, as `file_tensors` describes them.
pub uninterp spec fn stored_tensors(b: candle_core::safetensors::BufferedSafetensors) -> Map<Seq<char>, (Seq<usize>, Seq<char>)>;

/// Relies on candle_core::safetensors::BufferedSafetensors::new: it parses the header of the
/// buffer, and fails exactly on bytes that are not a tensor file. The header's reader adds the
/// end of the last data range to the header size unchecked, so only buffers whose ranges end
/// within the buffer are passed.
#[verifier::external_body]
fn open_buffer(buffer: Vec<u8>) -> (r: Result<candle_core::safetensors::BufferedSafetensors, candle_core::Error>)
    requires
        header_fits(buffer@),
    ensures
        r is Ok <==> file_tensors(buffer@) is Some,
        r matches Ok(b) ==> stored_tensors(b) == file_tensors(buffer@)->0,
{
    candle_core::safetensors::BufferedSafetensors::new(buffer)
}

/// Names listed once each.
pub open spec fn distinct_names(e: Seq<(String, Vec<usize>, String)>) -> bool {
    forall|i: int, j: int| 0 <= i < e.len() && 0 <= j < e.len() && i != j ==> e[i].0@ != e[j].0@
}

/// Relies on candle_core::safetensors::BufferedSafetensors::tensors: every tensor of the
/// header once (the header is a map by name), with its shape and its element type spelled
/// out; the header's reader has checked that every shape's element count fits.
#[verifier::external_body]
fn header_entries(b: &candle_core::safetensors::BufferedSafetensors) -> (r: Vec<(String, Vec<usize>, String)>)
    ensures
        distinct_names(r@),
        forall|i: int| 0 <= i < r@.len() ==> stored_tensors(*b).contains_key(#[trigger] r@[i].0@)
            && stored_tensors(*b)[r@[i].0@] == (r@[i].1@, r@[i].2@) && shape_fits(r@[i].1@),
        forall|k: Seq<char>| #[trigger] stored_tensors(*b).contains_key(k) ==> exists|i: int|
            0 <= i < r@.len() && r@[i].0@ == k,
{
    b.tensors().into_iter().map(|(name, view)| (name, view.shape().to_vec(), format!("{:?}", view.dtype()))).collect()
}

/// The shape that the header gives the first tensor named `k`.
pub open spec fn info_shape(h: Seq<TensorInfo>, k: Seq<char>) -> Option<Seq<usize>>
    decreases h.len(),
{
    if h.len() == 0 {
        None
    } else if h[0].name@ == k {
        Some(h[0].shape@)
    } else {
        info_shape(h.drop_first(), k)
    }
}

/// The element type that the header gives the first tensor named `k`.
pub open spec fn info_dtype(h: Seq<TensorInfo>, k: Seq<char>) -> Option<StoredDType>
    decreases h.len(),
{
    if h.len() == 0 {
        None
    } else if h[0].name@ == k {
        Some(h[0].dtype)
    } else {
        info_dtype(h.drop_first(), k)
    }
}

/// The names of the header, in order.
pub open spec fn info_names(h: Seq<TensorInfo>) -> Seq<Seq<char>> {
    h.map_values(|t: TensorInfo| t.name@)
}

/// The header lists exactly the tensors that the opened file holds, with their shapes and
/// element types.
pub open spec fn header_lists(h: Seq<TensorInfo>, m: Map<Seq<char>, (Seq<usize>, Seq<char>)>) -> bool {
    &&& forall|i: int| 0 <= i < h.len() ==> m.contains_key(#[trigger] h[i].name@) && m[h[i].name@].0
        == h[i].shape@ && dtype_spec(m[h[i].name@].1) == h[i].dtype
    &&& forall|k: Seq<char>| #[trigger] m.contains_key(k) ==> exists|i: int| 0 <= i < h.len() && h[i].name@ == k
}

/// A header that names each tensor once.
pub open spec fn unique_info(h: Seq<TensorInfo>) -> bool {
    forall|i: int, j: int| 0 <= i < h.len() && 0 <= j < h.len() && i != j ==> h[i].name@ != h[j].name@
}

proof fn lemma_info_unique(h: Seq<TensorInfo>, i: int)
    requires
        unique_info(h),
        0 <= i < h.len(),
    ensures
        info_shape(h, h[i].name@) == Some(h[i].shape@),
        info_dtype(h, h[i].name@) == Some(h[i].dtype),
    decreases i,
{
    if i > 0 {
        assert(h[0].name@ != h[i].name@);
        let t = h.drop_first();
        assert(t[i - 1] == h[i]);
        assert(unique_info(t)) by {
            assert forall|x: int, y: int| 0 <= x < t.len() && 0 <= y < t.len() && x != y implies t[x].name@ != t[y].name@ by {
                assert(t[x] == h[x + 1]);
                assert(t[y] == h[y + 1]);
            }
        }
        lemma_info_unique(t, i - 1);
    }
}

proof fn lemma_info_absent(h: Seq<TensorInfo>, k: Seq<char>)
    requires
        forall|i: int| 0 <= i < h.len() ==> h[i].name@ != k,
    ensures
        info_shape(h, k) is None,
        info_dtype(h, k) is None,
    decreases h.len(),
{
    if h.len() > 0 {
        assert(h[0].name@ != k);
        let t = h.drop_first();
        assert forall|i: int| 0 <= i < t.len() implies t[i].name@ != k by {
            assert(t[i] == h[i + 1]);
        }
        lemma_info_absent(t, k);
    }
}

proof fn lemma_info_found(h: Seq<TensorInfo>, k: Seq<char>)
    requires
        info_shape(h, k) is Some,
    ensures
        exists|i: int| 0 <= i < h.len() && h[i].name@ == k && info_shape(h, k) == Some(h[i].shape@)
            && info_dtype(h, k) == Some(h[i].dtype),
    decreases h.len(),
{
    if h[0].name@ != k {
        let t = h.drop_first();
        lemma_info_found(t, k);
        let i = choose|i: int| 0 <= i < t.len() && t[i].name@ == k && info_shape(t, k) == Some(t[i].shape@)
            && info_dtype(t, k) == Some(t[i].dtype);
        assert(h[i + 1] == t[i]);
    } else {
        assert(h[0].name@ == k);
    }
}

proof fn lemma_header_fits(h: Seq<TensorInfo>, k: Seq<char>)
    requires
        forall|i: int| 0 <= i < h.len() ==> shape_fits(#[trigger] h[i].shape@),
    ensures
        info_shape(h, k) is Some ==> shape_fits(info_shape(h, k)->0) && info_dtype(h, k) is Some,
{
    if info_shape(h, k) is Some {
        lemma_info_found(h, k);
    }
}

/// The element type that the backend loads a stored element type as: 16-bit unsigned integers
/// widen to 32 bits and 32-bit signed ones to 64 bits; `None` for types it does not load.
pub open spec fn candle_of(d: StoredDType) -> Option<candle_core::DType> {
    match d {
        StoredDType::U8 => Some(candle_core::DType::U8),
        StoredDType::U16 => Some(candle_core::DType::U32),
        StoredDType::U32 => Some(candle_core::DType::U32),
        StoredDType::I32 => Some(candle_core::DType::I64),
        StoredDType::I64 => Some(candle_core::DType::I64),
        StoredDType::BF16 => Some(candle_core::DType::BF16),
        StoredDType::F16 => Some(candle_core::DType::F16),
        StoredDType::F32 => Some(candle_core::DType::F32),
        StoredDType::F64 => Some(candle_core::DType::F64),
        _ => None,
    }
}

/// The tensors of a file held in its buffer. Built with `new`, they are loaded one by one
/// when asked for; built with `new_loaded`, all of them are loaded up front.
pub struct BufferedLoRAWeight {
    buffered: candle_core::safetensors::BufferedSafetensors,
    header: Vec<TensorInfo>,
    format: LoRAFormat,
    loaded: Option<Vec<Array>>,
}


/// Relies on candle_core::safetensors::BufferedSafetensors::load: the tensor stored under
/// `name`, on the CPU, with the shape that the header gives it and the element type the
/// backend loads its stored type as; loading succeeds for a listed tensor of such a type.
#[verifier::external_body]
fn load_named(w: &BufferedLoRAWeight, name: &str) -> (r: Result<Array, candle_core::Error>)
    ensures
        r matches Ok(a) ==> a.model() == TensorExpr::Stored(name@),
        r matches Ok(a) ==> info_shape(w.header@, name@) == Some(a.shape()) && info_dtype(w.header@, name@)
            is Some && candle_of(info_dtype(w.header@, name@)->0) == Some(a.dtype()),
        info_shape(w.header@, name@) is Some && info_dtype(w.header@, name@) is Some && candle_of(
            info_dtype(w.header@, name@)->0,
        ) is Some ==> r is Ok,
{
    let m = Ghost(TensorExpr::Stored(name@));
    w.buffered.load(name, &candle_core::Device::Cpu).map(|t| Array { shape: t.dims().to_vec(), dtype: t.dtype(), tensor: t, model: m })
}

/// The element type of the first tensor, in header order, whose name does not mention alpha.
pub open spec fn first_non_alpha(h: Seq<TensorInfo>) -> Option<StoredDType>
    decreases h.len(),
{
    if h.len() == 0 {
        None
    } else if !seq_contains(h[0].name@, "alpha"@) {
        Some(h[0].dtype)
    } else {
        first_non_alpha(h.drop_first())
    }
}

/// The rank that a tensor shows: the first dimension of a down-like factor, the last of an
/// orthogonal transform; none for other tensors.
pub open spec fn entry_rank(t: TensorInfo) -> Option<usize> {
    let k = t.name@;
    let s = t.shape@;
    if seq_contains(k, "lora_down"@) || seq_contains(k, "hada_w1_b"@) || seq_contains(k, "lokr_w1"@)
        || seq_contains(k, "b1.weight"@) {
        if s.len() > 0 { Some(s[0]) } else { None }
    } else if seq_contains(k, "oft_diag"@) || seq_contains(k, "oft_blocks"@) {
        if s.len() > 0 { Some(s.last()) } else { None }
    } else if seq_contains(k, "lora_A"@) {
        if s.len() > 0 { Some(s[0]) } else { None }
    } else {
        None
    }
}

/// The ranks that the tensors of a header show.
pub open spec fn rank_set(h: Seq<TensorInfo>) -> Set<usize>
    decreases h.len(),
{
    if h.len() == 0 {
        Set::empty()
    } else {
        let s = rank_set(h.drop_last());
        match entry_rank(h.last()) {
            Some(n) => s.insert(n),
            None => s,
        }
    }
}

/// The first dimensions of the tensors whose names contain `p`.
pub open spec fn pattern_ranks(h: Seq<TensorInfo>, p: Seq<char>) -> Set<usize>
    decreases h.len(),
{
    if h.len() == 0 {
        Set::empty()
    } else {
        let s = pattern_ranks(h.drop_last(), p);
        let t = h.last();
        if seq_contains(t.name@, p) && t.shape@.len() > 0 {
            s.insert(t.shape@[0])
        } else {
            s
        }
    }
}

fn entry_rank_exec(t: &TensorInfo) -> (r: Option<usize>)
    ensures
        r == entry_rank(*t),
{
    let k = t.name.as_str();
    let n = t.shape.len();
    if str_contains(k, "lora_down") || str_contains(k, "hada_w1_b") || str_contains(k, "lokr_w1")
        || str_contains(k, "b1.weight") {
        if n > 0 { Some(t.shape[0]) } else { None }
    } else if str_contains(k, "oft_diag") || str_contains(k, "oft_blocks") {
        if n > 0 { Some(t.shape[n - 1]) } else { None }
    } else if str_contains(k, "lora_A") {
        if n > 0 { Some(t.shape[0]) } else { None }
    } else {
        None
    }
}

/// A result that is the error `NotFound`.
pub open spec fn not_found<T>(r: Result<T, InspectorError>) -> bool {
    r matches Err(InspectorError::NotFound)
}

/// A result that is the error `UnsupportedNetworkType`.
pub open spec fn unsupported<T>(r: Result<T, InspectorError>) -> bool {
    r matches Err(InspectorError::UnsupportedNetworkType)
}

/// The tensor stored under `base` followed by `suffix`, as the backend loads it.
pub open spec fn stored(base: Seq<char>, suffix: Seq<char>) -> TensorExpr {
    TensorExpr::Stored(base + suffix)
}

/// The network types that rebuild as plain low-rank weights; no type at all counts as one.
pub open spec fn is_standard(t: Option<NetworkType>) -> bool {
    t is None || t == Some(NetworkType::LoRA) || t == Some(NetworkType::LoRAFA) || t == Some(
        NetworkType::DyLoRA,
    ) || t == Some(NetworkType::LoCon)
}

/// The network types without a reconstruction.
pub open spec fn is_unsupported(t: Option<NetworkType>) -> bool {
    t == Some(NetworkType::IA3) || t == Some(NetworkType::GLoKr) || t == Some(NetworkType::OFT)
}

impl BufferedLoRAWeight {
    /// The header names each tensor once, with a shape whose element count fits; tensors loaded
    /// up front stand in header order, with the shape and element type of their entry.
    #[verifier::type_invariant]
    closed spec fn header_consistent(self) -> bool {
        &&& unique_info(self.header@)
        &&& forall|i: int| 0 <= i < self.header@.len() ==> shape_fits(#[trigger] self.header@[i].shape@)
        &&& header_lists(self.header@, stored_tensors(self.buffered))
        &&& match self.loaded {
            Some(v) => v@.len() == self.header@.len() && forall|i: int|
                0 <= i < v@.len() ==> #[trigger] v@[i].shape() == self.header@[i].shape@ && candle_of(
                    self.header@[i].dtype,
                ) == Some(v@[i].dtype()) && v@[i].model() == TensorExpr::Stored(self.header@[i].name@),
            None => true,
        }
    }

    /// Whether all tensors were loaded up front.
    pub closed spec fn is_preloaded(&self) -> bool {
        self.loaded is Some
    }

    /// The header of the file.
    pub closed spec fn header_view(&self) -> Seq<TensorInfo> {
        self.header@
    }

    /// The names of the tensors, in the order of the header.
    pub open spec fn key_names(&self) -> Seq<Seq<char>> {
        info_names(self.header_view())
    }

    /// The shape of the tensor named `k`, if the file has one.
    pub open spec fn key_shape(&self, k: Seq<char>) -> Option<Seq<usize>> {
        info_shape(self.header_view(), k)
    }

    /// The stored element type of the tensor named `k`, if the file has one.
    pub open spec fn key_dtype(&self, k: Seq<char>) -> Option<StoredDType> {
        info_dtype(self.header_view(), k)
    }

    /// The naming convention of the file.
    pub closed spec fn format_view(&self) -> LoRAFormat {
        self.format
    }

    /// The header agrees with the tensors that the bytes `buffer` list.
    pub open spec fn reads(&self, buffer: Seq<u8>) -> bool {
        let m = file_tensors(buffer)->0;
        forall|k: Seq<char>| {
            &&& #[trigger] self.key_shape(k) == if m.contains_key(k) {
                Some(m[k].0)
            } else {
                None
            }
            &&& m.contains_key(k) ==> self.key_dtype(k) == Some(dtype_spec(m[k].1))
        }
    }

    /// Reads the header of a tensor file held in `buffer`, and detects its naming convention
    /// from the first names of the header. It fails exactly on bytes that are not a tensor file.
    pub fn new(buffer: Vec<u8>) -> (r: Result<Self, InspectorError>)
        ensures
            r is Ok ==> file_tensors(buffer@) is Some,
            header_fits(buffer@) && file_tensors(buffer@) is Some ==> r is Ok,
            file_tensors(buffer@) is None ==> r is Err,
            r matches Ok(w) ==> w.format_view() == detect_spec(w.key_names()) && !w.is_preloaded()
                && w.reads(buffer@),
            r matches Err(e) ==> e is Candle || e is MalformedHeader,
            !header_fits(buffer@) ==> r matches Err(InspectorError::MalformedHeader),
    {
        let ghost bytes = buffer@;
        if !header_within_buffer(buffer.as_slice()) {
            return Err(InspectorError::MalformedHeader);
        }
        let buffered = backend(open_buffer(buffer))?;
        let raw = header_entries(&buffered);
        let mut header: Vec<TensorInfo> = Vec::new();
        let mut names: Vec<String> = Vec::new();
        let mut i: usize = 0;
        while i < raw.len()
            invariant
                i <= raw@.len(),
                header@.len() == i,
                names_of(names@) == info_names(header@),
                forall|j: int| 0 <= j < i ==> (#[trigger] header@[j]).name@ == raw@[j].0@ && header@[j].shape@
                    == raw@[j].1@ && header@[j].dtype == dtype_spec(raw@[j].2@),
            decreases raw.len() - i,
        {
            let (name, shape, dtype_name) = (&raw[i].0, &raw[i].1, &raw[i].2);
            let ghost old_header = header@;
            header.push(TensorInfo { name: name.clone(), shape: shape.clone(), dtype: dtype_from_name(dtype_name.as_str()) });
            names.push(name.clone());
            assert(info_names(header@) =~= info_names(old_header).push(name@));
            assert(names_of(names@) =~= info_names(header@));
            i = i + 1;
        }
        let format = detect_format(&names);
        proof {
            let h = header@;
            assert(header_lists(h, stored_tensors(buffered))) by {
                assert forall|k: Seq<char>| #[trigger] stored_tensors(buffered).contains_key(k) implies exists|i: int|
                    0 <= i < h.len() && h[i].name@ == k by {
                    let j = choose|j: int| 0 <= j < raw@.len() && raw@[j].0@ == k;
                    assert(h[j].name@ == k);
                }
            }
        }
        let w = BufferedLoRAWeight { buffered, header, format, loaded: None };
        proof {
            let h = w.header@;
            let m = file_tensors(bytes)->0;
            assert(unique_info(h)) by {
                assert forall|x: int, y: int| 0 <= x < h.len() && 0 <= y < h.len() && x != y implies h[x].name@ != h[y].name@ by {
                    assert(h[x].name@ == raw@[x].0@);
                    assert(h[y].name@ == raw@[y].0@);
                }
            }
            assert forall|k: Seq<char>| {
                &&& #[trigger] w.key_shape(k) == if m.contains_key(k) {
                    Some(m[k].0)
                } else {
                    None
                }
                &&& m.contains_key(k) ==> w.key_dtype(k) == Some(dtype_spec(m[k].1))
            } by {
                if m.contains_key(k) {
                    assert(stored_tensors(buffered).contains_key(k));
                    let j = choose|j: int| 0 <= j < raw@.len() && raw@[j].0@ == k;
                    assert(h[j].name@ == k);
                    lemma_info_unique(h, j);
                } else {
                    assert forall|j: int| 0 <= j < h.len() implies h[j].name@ != k by {
                        assert(h[j].name@ == raw@[j].0@);
                        assert(stored_tensors(buffered).contains_key(raw@[j].0@));
                    }
                    lemma_info_absent(h, k);
                }
            }
        }
        Ok(w)
    }

    /// Reads a tensor file held in `buffer` as `new` does, and loads every tensor up front:
    /// any tensor that cannot be loaded makes the whole file fail.
    pub fn new_loaded(buffer: Vec<u8>) -> (r: Result<Self, InspectorError>)
        ensures
            r matches Ok(w) ==> w.format_view() == detect_spec(w.key_names()) && w.is_preloaded()
                && w.reads(buffer@),
            r matches Err(e) ==> e is Candle || e is MalformedHeader,
            file_tensors(buffer@) is None ==> r is Err,
    {
        let lazy = Self::new(buffer)?;
        proof {
            use_type_invariant(&lazy);
        }
        let n = lazy.header.len();
        let mut arrays: Vec<Array> = Vec::new();
        let mut i: usize = 0;
        while i < n
            invariant
                n == lazy.header@.len(),
                i <= n,
                unique_info(lazy.header@),
                forall|j: int| 0 <= j < lazy.header@.len() ==> shape_fits(#[trigger] lazy.header@[j].shape@),
                lazy.format_view() == detect_spec(lazy.key_names()),
                arrays@.len() == i,
                forall|j: int| 0 <= j < i ==> (#[trigger] arrays@[j]).shape() == lazy.header@[j].shape@
                    && candle_of(lazy.header@[j].dtype) == Some(arrays@[j].dtype())
                    && arrays@[j].model() == TensorExpr::Stored(lazy.header@[j].name@),
            decreases n - i,
        {
            proof {
                lemma_info_unique(lazy.header@, i as int);
            }
            let a = backend(load_named(&lazy, lazy.header[i].name.as_str()))?;
            assert(a.shape() == lazy.header@[i as int].shape@);
            assert(candle_of(lazy.header@[i as int].dtype) == Some(a.dtype()));
            let ghost before = arrays@;
            let ghost ga = a;
            arrays.push(a);
            assert(arrays@[i as int] == ga);
            assert forall|j: int| 0 <= j < i + 1 implies (#[trigger] arrays@[j]).shape() == lazy.header@[j].shape@
                && candle_of(lazy.header@[j].dtype) == Some(arrays@[j].dtype())
                && arrays@[j].model() == TensorExpr::Stored(lazy.header@[j].name@) by {
                if j < i {
                    assert(arrays@[j] == before[j]);
                    assert(before[j].shape() == lazy.header@[j].shape@);
                    assert(candle_of(lazy.header@[j].dtype) == Some(before[j].dtype()));
                    assert(before[j].model() == TensorExpr::Stored(lazy.header@[j].name@));
                } else {
                    assert(j == i);
                    assert(arrays@[j] == ga);
                }
            }
            i = i + 1;
        }
        let ghost lw = lazy;
        let BufferedLoRAWeight { buffered, header, format, loaded: _ } = lazy;
        assert(header_lists(lw.header@, stored_tensors(lw.buffered)));
        let w = BufferedLoRAWeight { buffered, header, format, loaded: Some(arrays) };
        assert(w.header@ == lw.header@);
        assert(w.format == lw.format);
        assert(w.key_names() == lw.key_names());
        assert forall|k: Seq<char>| w.key_shape(k) == lw.key_shape(k) && w.key_dtype(k) == lw.key_dtype(k) by {}
        Ok(w)
    }

    /// The names of the tensors, in the order of the header.
    pub fn keys(&self) -> (r: Vec<String>)
        ensures
            names_of(r@) == self.key_names(),
    {
        let mut names: Vec<String> = Vec::new();
        let mut i: usize = 0;
        while i < self.header.len()
            invariant
                i <= self.header@.len(),
                names_of(names@) == info_names(self.header@.subrange(0, i as int)),
            decreases self.header.len() - i,
        {
            names.push(self.header[i].name.clone());
            assert(info_names(self.header@.subrange(0, i + 1)) =~= info_names(self.header@.subrange(0, i as int)).push(self.header@[i as int].name@));
            assert(names_of(names@) =~= info_names(self.header@.subrange(0, i + 1)));
            i = i + 1;
        }
        assert(self.header@.subrange(0, self.header@.len() as int) =~= self.header@);
        names
    }

    /// The naming convention of the file.
    pub fn format(&self) -> (r: LoRAFormat)
        ensures
            r == self.format_view(),
    {
        self.format
    }

    /// The position in the header of the first tensor named `k`.
    fn index_of(&self, k: &str) -> (r: Option<usize>)
        ensures
            r matches Some(i) ==> i < self.header@.len() && self.key_shape(k@) == Some(
                self.header@[i as int].shape@,
            ) && self.header@[i as int].name@ == k@,
            r is None ==> self.key_shape(k@) is None,
    {
        let n = self.header.len();
        let kc = crate::text::chars_of(k);
        let mut i: usize = 0;
        assert(self.header@.subrange(0, n as int) =~= self.header@);
        while i < n
            invariant
                n == self.header@.len(),
                i <= n,
                kc@ == k@,
                info_shape(self.header@, k@) == info_shape(self.header@.subrange(i as int, n as int), k@),
            decreases n - i,
        {
            assert(self.header@.subrange(i as int, n as int).drop_first() =~= self.header@.subrange(i + 1, n as int));
            let c = crate::text::chars_of(self.header[i].name.as_str());
            if crate::text::same_chars(c.as_slice(), kc.as_slice()) {
                return Some(i);
            }
            i = i + 1;
        }
        assert(self.header@.subrange(n as int, n as int) =~= Seq::<TensorInfo>::empty());
        None
    }

    /// The shape of the tensor named `k`, if the file has one.
    pub fn shape_of(&self, k: &str) -> (r: Option<&Vec<usize>>)
        ensures
            r matches Some(s) ==> self.key_shape(k@) == Some(s@),
            r is None ==> self.key_shape(k@) is None,
    {
        match self.index_of(k) {
            Some(i) => Some(&self.header[i].shape),
            None => None,
        }
    }

    /// Whether the file has a tensor named `k`.
    pub fn has(&self, k: &str) -> (r: bool)
        ensures
            r == self.key_shape(k@) is Some,
    {
        self.shape_of(k).is_some()
    }

    /// The tensor named `k`: `NotFound` when the file has none, a backend error when it cannot
    /// be loaded. A listed tensor of a type the backend loads is always returned.
    pub fn get(&self, k: &str) -> (r: Result<Array, InspectorError>)
        ensures
            self.key_shape(k@) is None ==> r matches Err(InspectorError::NotFound),
            r matches Ok(a) ==> a.model() == TensorExpr::Stored(k@),
            r matches Ok(a) ==> self.key_shape(k@) == Some(a.shape()) && self.key_dtype(k@) is Some
                && candle_of(self.key_dtype(k@)->0) == Some(a.dtype()),
            r matches Err(e) ==> if self.key_shape(k@) is Some {
                e is Candle
            } else {
                e is NotFound
            },
            self.key_shape(k@) is Some && self.key_dtype(k@) is Some && candle_of(self.key_dtype(k@)->0)
                is Some ==> r is Ok,
    {
        proof {
            use_type_invariant(self);
        }
        match self.index_of(k) {
            None => Err(InspectorError::NotFound),
            Some(i) => {
                proof {
                    lemma_info_unique(self.header@, i as int);
                }
                match &self.loaded {
                    Some(arrays) => {
                        assert(arrays@[i as int].shape() == self.header@[i as int].shape@);
                        Ok(copy_array(&arrays[i]))
                    },
                    None => backend(load_named(self, k)),
                }
            },
        }
    }

    /// The names that contain `pattern`, in header order.
    pub fn keys_by_key(&self, pattern: &str) -> (r: Vec<String>)
        ensures
            names_of(r@) == with_pattern(self.key_names(), pattern@),
    {
        keys_by_key(&self.keys(), pattern)
    }

    /// The weight-bearing names, pattern by pattern.
    pub fn weight_keys(&self) -> (r: Vec<String>)
        ensures
            names_of(r@) == crate::keys::weight_keys_spec(self.key_names()),
    {
        weight_keys(&self.keys())
    }

    /// The names of the denoising network's tensors.
    pub fn unet_keys(&self) -> (r: Vec<String>)
        ensures
            names_of(r@) == with_pattern(self.key_names(), "lora_unet"@),
    {
        self.keys_by_key("lora_unet")
    }

    /// The names of the text encoders' tensors.
    pub fn text_encoder_keys(&self) -> (r: Vec<String>)
        ensures
            names_of(r@) == with_pattern(self.key_names(), "lora_te"@),
    {
        self.keys_by_key("lora_te")
    }

    /// The names of the alpha tensors.
    pub fn alpha_keys(&self) -> (r: Vec<String>)
        ensures
            names_of(r@) == with_pattern(self.key_names(), "alpha"@),
    {
        self.keys_by_key("alpha")
    }

    /// The names of the up factors.
    pub fn up_keys(&self) -> (r: Vec<String>)
        ensures
            names_of(r@) == with_pattern(self.key_names(), "lora_up"@),
    {
        self.keys_by_key("lora_up")
    }

    /// The names of the down factors.
    pub fn down_keys(&self) -> (r: Vec<String>)
        ensures
            names_of(r@) == with_pattern(self.key_names(), "lora_down"@),
    {
        self.keys_by_key("lora_down")
    }

    /// The distinct base names of the weight-bearing tensors.
    pub fn base_names(&self) -> (r: Vec<String>)
        ensures
            names_of(r@).no_duplicates(),
            names_of(r@).to_set() == crate::keys::base_name_set(self.key_names()),
    {
        base_names(&self.keys())
    }

    /// The element type of the first tensor whose name does not mention alpha.
    pub fn precision(&self) -> (r: Option<StoredDType>)
        ensures
            r == first_non_alpha(self.header_view()),
    {
        let n = self.header.len();
        let mut i: usize = 0;
        assert(self.header@.subrange(0, n as int) =~= self.header@);
        while i < n
            invariant
                n == self.header@.len(),
                i <= n,
                first_non_alpha(self.header@) == first_non_alpha(self.header@.subrange(i as int, n as int)),
            decreases n - i,
        {
            assert(self.header@.subrange(i as int, n as int).drop_first() =~= self.header@.subrange(i + 1, n as int));
            if !str_contains(self.header[i].name.as_str(), "alpha") {
                return Some(self.header[i].dtype);
            }
            i = i + 1;
        }
        assert(self.header@.subrange(n as int, n as int) =~= Seq::<TensorInfo>::empty());
        None
    }

    /// The distinct ranks that the tensors show, in header order.
    pub fn dims(&self) -> (r: Vec<usize>)
        ensures
            r@.no_duplicates(),
            r@.to_set() == rank_set(self.header_view()),
    {
        let mut r: Vec<usize> = Vec::new();
        let n = self.header.len();
        let mut i: usize = 0;
        assert(r@.to_set() =~= Set::<usize>::empty());
        assert(self.header@.subrange(0, 0) =~= Seq::<TensorInfo>::empty());
        while i < n
            invariant
                n == self.header@.len(),
                i <= n,
                r@.no_duplicates(),
                r@.to_set() == rank_set(self.header@.subrange(0, i as int)),
            decreases n - i,
        {
            let ghost before = self.header@.subrange(0, i as int);
            assert(self.header@.subrange(0, i + 1).drop_last() =~= before);
            match entry_rank_exec(&self.header[i]) {
                Some(k) => {
                    let mut found = false;
                    let mut j: usize = 0;
                    while j < r.len()
                        invariant
                            j <= r@.len(),
                            found == (exists|m: int| 0 <= m < j && r@[m] == k),
                        decreases r.len() - j,
                    {
                        if r[j] == k {
                            found = true;
                        }
                        j = j + 1;
                    }
                    assert(found == r@.contains(k));
                    if !found {
                        let ghost old_r = r@;
                        r.push(k);
                        proof {
                            old_r.lemma_push_to_set_commute(k);
                        }
                    } else {
                        assert(r@.to_set() =~= r@.to_set().insert(k));
                    }
                },
                None => {},
            }
            i = i + 1;
        }
        assert(self.header@.subrange(0, n as int) =~= self.header@);
        r
    }

    /// The distinct first dimensions of the tensors whose names contain `pattern`, in header
    /// order; under the parameter-efficient convention the `lora_A` ones are the alphas.
    pub fn first_dims(&self, pattern: &str) -> (r: Vec<usize>)
        ensures
            r@.no_duplicates(),
            r@.to_set() == pattern_ranks(self.header_view(), pattern@),
    {
        let mut r: Vec<usize> = Vec::new();
        let n = self.header.len();
        let mut i: usize = 0;
        assert(r@.to_set() =~= Set::<usize>::empty());
        assert(self.header@.subrange(0, 0) =~= Seq::<TensorInfo>::empty());
        while i < n
            invariant
                n == self.header@.len(),
                i <= n,
                r@.no_duplicates(),
                r@.to_set() == pattern_ranks(self.header@.subrange(0, i as int), pattern@),
            decreases n - i,
        {
            let ghost before = self.header@.subrange(0, i as int);
            assert(self.header@.subrange(0, i + 1).drop_last() =~= before);
            let t = &self.header[i];
            if str_contains(t.name.as_str(), pattern) && t.shape.len() > 0 {
                let k = t.shape[0];
                let mut found = false;
                let mut j: usize = 0;
                while j < r.len()
                    invariant
                        j <= r@.len(),
                        found == (exists|m: int| 0 <= m < j && r@[m] == k),
                    decreases r.len() - j,
                {
                    if r[j] == k {
                        found = true;
                    }
                    j = j + 1;
                }
                assert(found == r@.contains(k));
                if !found {
                    let ghost old_r = r@;
                    r.push(k);
                    proof {
                        old_r.lemma_push_to_set_commute(k);
                    }
                } else {
                    assert(r@.to_set() =~= r@.to_set().insert(k));
                }
            }
            i = i + 1;
        }
        assert(self.header@.subrange(0, n as int) =~= self.header@);
        r
    }

    /// The file has a tensor named `base` followed by `suffix`.
    pub open spec fn has_part(&self, base: Seq<char>, suffix: Seq<char>) -> bool {
        self.key_shape(base + suffix) is Some
    }

    /// The shape of the tensor named `base` followed by `suffix`.
    pub open spec fn part_shape(&self, base: Seq<char>, suffix: Seq<char>) -> Seq<usize> {
        self.key_shape(base + suffix)->0
    }

    /// The element type that the tensor named `base` followed by `suffix` loads as.
    pub open spec fn part_dtype(&self, base: Seq<char>, suffix: Seq<char>) -> candle_core::DType {
        candle_of(self.key_dtype(base + suffix)->0)->0
    }

    /// The shape and loaded element type of the tensor named `base` followed by `suffix`.
    pub open spec fn part_meta(&self, base: Seq<char>, suffix: Seq<char>) -> (Seq<usize>, candle_core::DType) {
        (self.part_shape(base, suffix), self.part_dtype(base, suffix))
    }

    /// The file has the tensor named `base` followed by `suffix`, of a type the backend loads.
    pub open spec fn loadable(&self, base: Seq<char>, suffix: Seq<char>) -> bool {
        &&& self.has_part(base, suffix)
        &&& self.key_dtype(base + suffix) is Some
        &&& candle_of(self.key_dtype(base + suffix)->0) is Some
    }

    /// The component `base` followed by `suffix`: `NotFound` when the file has none.
    fn part(&self, base: &str, suffix: &str) -> (r: Result<Array, InspectorError>)
        ensures
            !self.has_part(base@, suffix@) ==> r matches Err(InspectorError::NotFound),
            r matches Ok(a) ==> meta(a) == self.part_meta(base@, suffix@),
            r matches Ok(a) ==> a.model() == stored(base@, suffix@),
            r matches Err(e) ==> if self.has_part(base@, suffix@) {
                e is Candle
            } else {
                e is NotFound
            },
            self.loadable(base@, suffix@) ==> r is Ok,
    {
        let k = with_suffix(base, suffix);
        self.get(k.as_str())
    }

    /// Whether the file has the component `base` followed by `suffix`.
    fn has_suffixed(&self, base: &str, suffix: &str) -> (r: bool)
        ensures
            r == self.has_part(base@, suffix@),
    {
        let k = with_suffix(base, suffix);
        self.has(k.as_str())
    }

    /// The rank of a plain low-rank weight: the first dimension of its down factor.
    pub fn rank(&self, base: &str) -> (r: Result<usize, InspectorError>)
        ensures
            !self.has_part(base@, down_suffix(self.format_view())) ==> r matches Err(InspectorError::NotFound),
            self.has_part(base@, down_suffix(self.format_view())) && self.part_shape(base@, down_suffix(
                self.format_view(),
            )).len() >= 1 ==> r == Ok::<usize, InspectorError>(
                self.part_shape(base@, down_suffix(self.format_view()))[0],
            ),
            r matches Err(e) ==> e is NotFound || e is Msg,
            self.has_part(base@, down_suffix(self.format_view())) && self.part_shape(base@, down_suffix(
                self.format_view(),
            )).len() == 0 ==> r is Err,
    {
        let k = down_key(self.format, base);
        match self.shape_of(k.as_str()) {
            None => Err(InspectorError::NotFound),
            Some(s) => if s.len() == 0 {
                Err(InspectorError::Msg(String::from_str("the down factor is a scalar")))
            } else {
                Ok(s[0])
            },
        }
    }

    /// A plain low-rank weight lacks one of its tensors: an up or a down factor, or an alpha
    /// where the naming convention stores one.
    pub open spec fn lora_missing(&self, base: Seq<char>) -> bool {
        ||| !self.has_part(base, up_suffix(self.format_view()))
        ||| !self.has_part(base, down_suffix(self.format_view()))
        ||| (self.format_view() != LoRAFormat::Peft && !self.has_part(base, ".alpha"@))
    }

    /// A plain low-rank weight that rebuilds: its factors load and `lora_ok` takes them, and
    /// where the convention stores an alpha, it loads as a scalar with a rank within reach.
    pub open spec fn lora_ready(&self, base: Seq<char>) -> bool {
        let u = self.part_meta(base, up_suffix(self.format_view()));
        let d = self.part_meta(base, down_suffix(self.format_view()));
        &&& self.loadable(base, up_suffix(self.format_view()))
        &&& self.loadable(base, down_suffix(self.format_view()))
        &&& lora_ok(u.0, d.0, u.1, d.1)
        &&& (self.format_view() == LoRAFormat::Peft || (self.loadable(base, ".alpha"@) && alpha_ok(
            self.part_shape(base, ".alpha"@),
            d.0[0],
        )))
    }

    /// What the plain low-rank weight of `base` holds: the widened up and down factors
    /// combined by `lora_product`, times the stored alpha over the down factor's rank where the
    /// convention stores an alpha.
    pub open spec fn lora_model(&self, base: Seq<char>) -> TensorExpr {
        let us = up_suffix(self.format_view());
        let ds = down_suffix(self.format_view());
        maybe_scale_expr(
            lora_product(
                compat_expr(stored(base, us), self.part_dtype(base, us)),
                compat_expr(stored(base, ds), self.part_dtype(base, ds)),
                self.part_shape(base, us),
                self.part_shape(base, ds),
            ),
            if self.format_view() == LoRAFormat::Peft {
                None
            } else {
                Some(stored(base, ".alpha"@))
            },
            self.part_shape(base, ds)[0],
            lora_dtype(self.part_dtype(base, us), self.part_dtype(base, ds), self.part_shape(base, ds)),
        )
    }

    /// The plain low-rank weight `up @ down * alpha / rank` of `base`. Under the
    /// parameter-efficient convention the alpha is the rank and the product stays unscaled.
    pub fn scale_lora_weight(&self, base: &str) -> (r: Result<Array, InspectorError>)
        ensures
            self.lora_missing(base@) <==> r matches Err(InspectorError::NotFound),
            r matches Ok(c) ==> c.shape() == lora_shape(
                self.part_shape(base@, up_suffix(self.format_view())),
                self.part_shape(base@, down_suffix(self.format_view())),
            ),
            self.lora_ready(base@) ==> r is Ok,
            r matches Ok(c) ==> c.model() == self.lora_model(base@),
    {
        let uk = up_key(self.format, base);
        let dk = down_key(self.format, base);
        let peft = match self.format {
            LoRAFormat::Peft => true,
            _ => false,
        };
        if !self.has(uk.as_str()) || !self.has(dk.as_str()) || (!peft && !self.has_suffixed(base, ".alpha")) {
            return Err(InspectorError::NotFound);
        }
        let up = self.get(uk.as_str())?;
        let down = self.get(dk.as_str())?;
        if peft {
            lora_delta(up, down, None)
        } else {
            let alpha = self.part(base, ".alpha")?;
            lora_delta(up, down, Some(&alpha))
        }
    }

    /// A Hadamard-decomposition weight lacks one of its four factors or its alpha.
    pub open spec fn hada_missing(&self, base: Seq<char>) -> bool {
        ||| !self.has_part(base, ".hada_w1_a"@)
        ||| !self.has_part(base, ".hada_w1_b"@)
        ||| !self.has_part(base, ".hada_w2_a"@)
        ||| !self.has_part(base, ".hada_w2_b"@)
        ||| !self.has_part(base, ".alpha"@)
    }

    /// Whether a Hadamard-decomposition weight has both Tucker cores, which it then uses.
    pub open spec fn hada_tucker(&self, base: Seq<char>) -> bool {
        self.has_part(base, ".hada_t1"@) && self.has_part(base, ".hada_t2"@)
    }

    /// A Hadamard-decomposition weight that rebuilds: its tensors load, and `hada_ok`, or with
    /// both cores `hada_tucker_ok`, takes them.
    pub open spec fn hada_ready(&self, base: Seq<char>) -> bool {
        &&& self.loadable(base, ".hada_w1_a"@)
        &&& self.loadable(base, ".hada_w1_b"@)
        &&& self.loadable(base, ".hada_w2_a"@)
        &&& self.loadable(base, ".hada_w2_b"@)
        &&& self.loadable(base, ".alpha"@)
        &&& if self.hada_tucker(base) {
            &&& self.loadable(base, ".hada_t1"@)
            &&& self.loadable(base, ".hada_t2"@)
            &&& hada_tucker_ok(
                self.part_meta(base, ".hada_w1_a"@),
                self.part_meta(base, ".hada_w1_b"@),
                self.part_meta(base, ".hada_w2_a"@),
                self.part_meta(base, ".hada_w2_b"@),
                self.part_shape(base, ".alpha"@),
                self.part_meta(base, ".hada_t1"@),
                self.part_meta(base, ".hada_t2"@),
            )
        } else {
            hada_ok(
                self.part_meta(base, ".hada_w1_a"@),
                self.part_meta(base, ".hada_w1_b"@),
                self.part_meta(base, ".hada_w2_a"@),
                self.part_meta(base, ".hada_w2_b"@),
                self.part_shape(base, ".alpha"@),
            )
        }
    }

    /// What the Hadamard-decomposition weight of `base` holds: the elementwise product of the
    /// two low-rank products, or with both cores the matrix product of the two Tucker
    /// contractions, times the stored alpha over the rank of `hada_w1_b`.
    pub open spec fn hada_model(&self, base: Seq<char>) -> TensorExpr {
        if self.hada_tucker(base) {
            scale_expr(
                mm(
                    tucker_expr(stored(base, ".hada_t1"@), stored(base, ".hada_w1_a"@), stored(base, ".hada_w1_b"@)),
                    tucker_expr(stored(base, ".hada_t2"@), stored(base, ".hada_w2_a"@), stored(base, ".hada_w2_b"@)),
                ),
                stored(base, ".alpha"@),
                self.part_shape(base, ".hada_w1_b"@)[0],
                self.part_dtype(base, ".hada_w1_b"@),
            )
        } else {
            scale_expr(
                hada_product(
                    (stored(base, ".hada_w1_a"@), self.part_shape(base, ".hada_w1_a"@)),
                    (stored(base, ".hada_w1_b"@), self.part_shape(base, ".hada_w1_b"@)),
                    (stored(base, ".hada_w2_a"@), self.part_shape(base, ".hada_w2_a"@)),
                    (stored(base, ".hada_w2_b"@), self.part_shape(base, ".hada_w2_b"@)),
                ),
                stored(base, ".alpha"@),
                self.part_shape(base, ".hada_w1_b"@)[0],
                self.part_dtype(base, ".hada_w1_a"@),
            )
        }
    }

    /// The shape of the Hadamard-decomposition weight of `base`.
    pub open spec fn hada_result_shape(&self, base: Seq<char>) -> Seq<usize> {
        if self.hada_tucker(base) {
            seq![self.part_shape(base, ".hada_w1_b"@)[1], self.part_shape(base, ".hada_w2_a"@)[1]]
        } else {
            hada_shape(self.part_shape(base, ".hada_w1_a"@), self.part_shape(base, ".hada_w1_b"@))
        }
    }

    /// The Hadamard-decomposition weight of `base`: the elementwise product of two low-rank
    /// products times `alpha / rank`; with both Tucker cores, the matrix product of the two
    /// contractions times `alpha / rank`. A single core is not used.
    pub fn scale_hada_weight(&self, base: &str) -> (r: Result<Array, InspectorError>)
        ensures
            self.hada_missing(base@) <==> r matches Err(InspectorError::NotFound),
            r matches Ok(c) ==> if self.hada_tucker(base@) {
                c.shape() == seq![
                    self.part_shape(base@, ".hada_w1_b"@)[1],
                    self.part_shape(base@, ".hada_w2_a"@)[1],
                ]
            } else {
                c.shape() == hada_shape(
                    self.part_shape(base@, ".hada_w1_a"@),
                    self.part_shape(base@, ".hada_w1_b"@),
                )
            },
            self.hada_ready(base@) ==> r is Ok,
            r matches Ok(c) ==> c.model() == self.hada_model(base@) && c.shape() == self.hada_result_shape(base@),
    {
        if !self.has_suffixed(base, ".hada_w1_a") || !self.has_suffixed(base, ".hada_w1_b")
            || !self.has_suffixed(base, ".hada_w2_a") || !self.has_suffixed(base, ".hada_w2_b")
            || !self.has_suffixed(base, ".alpha") {
            return Err(InspectorError::NotFound);
        }
        let tucker = self.has_suffixed(base, ".hada_t1") && self.has_suffixed(base, ".hada_t2");
        let w1a = self.part(base, ".hada_w1_a")?;
        let w1b = self.part(base, ".hada_w1_b")?;
        let w2a = self.part(base, ".hada_w2_a")?;
        let w2b = self.part(base, ".hada_w2_b")?;
        let alpha = self.part(base, ".alpha")?;
        if tucker {
            let t1 = self.part(base, ".hada_t1")?;
            let t2 = self.part(base, ".hada_t2")?;
            hada_delta(&w1a, &w1b, &w2a, &w2b, &alpha, Some((&t1, &t2)))
        } else {
            hada_delta(&w1a, &w1b, &w2a, &w2b, &alpha, None)
        }
    }

    /// A generalized low-rank weight lacks one of its four matrices or its alpha.
    pub open spec fn glora_missing(&self, base: Seq<char>) -> bool {
        ||| !self.has_part(base, ".a1.weight"@)
        ||| !self.has_part(base, ".b1.weight"@)
        ||| !self.has_part(base, ".a2.weight"@)
        ||| !self.has_part(base, ".b2.weight"@)
        ||| !self.has_part(base, ".alpha"@)
    }

    /// A generalized low-rank weight that rebuilds: its tensors load and `glora_ok` takes them.
    pub open spec fn glora_ready(&self, base: Seq<char>) -> bool {
        &&& self.loadable(base, ".a1.weight"@)
        &&& self.loadable(base, ".b1.weight"@)
        &&& self.loadable(base, ".a2.weight"@)
        &&& self.loadable(base, ".b2.weight"@)
        &&& self.loadable(base, ".alpha"@)
        &&& glora_ok(
            self.part_meta(base, ".a1.weight"@),
            self.part_meta(base, ".b1.weight"@),
            self.part_meta(base, ".a2.weight"@),
            self.part_meta(base, ".b2.weight"@),
            self.part_shape(base, ".alpha"@),
        )
    }

    /// What the generalized low-rank weight of `base` holds: the sum of the two products, times
    /// the stored alpha over the rank of `b1`.
    pub open spec fn glora_model(&self, base: Seq<char>) -> TensorExpr {
        scale_expr(
            TensorExpr::Add(
                Box::new(mm(stored(base, ".b2.weight"@), stored(base, ".b1.weight"@))),
                Box::new(mm(stored(base, ".a2.weight"@), stored(base, ".a1.weight"@))),
            ),
            stored(base, ".alpha"@),
            self.part_shape(base, ".b1.weight"@)[0],
            self.part_dtype(base, ".b2.weight"@),
        )
    }

    /// The generalized low-rank weight of `base`: `(b2 @ b1 + a2 @ a1) * alpha / rank`.
    pub fn scale_glora_weights(&self, base: &str) -> (r: Result<Array, InspectorError>)
        ensures
            self.glora_missing(base@) <==> r matches Err(InspectorError::NotFound),
            r matches Ok(c) ==> c.shape() == glora_shape(
                self.part_shape(base@, ".b1.weight"@),
                self.part_shape(base@, ".b2.weight"@),
            ),
            self.glora_ready(base@) ==> r is Ok,
            r matches Ok(c) ==> c.model() == self.glora_model(base@),
    {
        if !self.has_suffixed(base, ".a1.weight") || !self.has_suffixed(base, ".b1.weight")
            || !self.has_suffixed(base, ".a2.weight") || !self.has_suffixed(base, ".b2.weight")
            || !self.has_suffixed(base, ".alpha") {
            return Err(InspectorError::NotFound);
        }
        let w1a = self.part(base, ".a1.weight")?;
        let w1b = self.part(base, ".b1.weight")?;
        let w2a = self.part(base, ".a2.weight")?;
        let w2b = self.part(base, ".b2.weight")?;
        let alpha = self.part(base, ".alpha")?;
        glora_delta(&w1a, &w1b, &w2a, &w2b, &alpha)
    }

    /// Whether the first Kronecker side is stored as a low-rank pair.
    pub open spec fn lokr_w1_factored(&self, base: Seq<char>) -> bool {
        self.has_part(base, ".lokr_w1_a"@)
    }

    /// Whether the second Kronecker side is stored as a low-rank pair.
    pub open spec fn lokr_w2_factored(&self, base: Seq<char>) -> bool {
        self.has_part(base, ".lokr_w2_a"@)
    }

    /// A Kronecker-decomposition weight lacks one of its tensors: the second factor of a pair,
    /// a side stored whole, or the alpha when a side is factored.
    pub open spec fn lokr_missing(&self, base: Seq<char>) -> bool {
        ||| (self.lokr_w1_factored(base) && !self.has_part(base, ".lokr_w1_b"@))
        ||| (!self.lokr_w1_factored(base) && !self.has_part(base, ".lokr_w1"@))
        ||| (self.lokr_w2_factored(base) && !self.has_part(base, ".lokr_w2_b"@))
        ||| (!self.lokr_w2_factored(base) && !self.has_part(base, ".lokr_w2"@))
        ||| ((self.lokr_w1_factored(base) || self.lokr_w2_factored(base)) && !self.has_part(base, ".alpha"@))
    }

    /// The shape of the first Kronecker side once rebuilt.
    pub open spec fn lokr_w1_shape(&self, base: Seq<char>) -> Seq<usize> {
        if self.lokr_w1_factored(base) {
            seq![self.part_shape(base, ".lokr_w1_a"@)[0]] + self.part_shape(base, ".lokr_w1_b"@).drop_first()
        } else {
            self.part_shape(base, ".lokr_w1"@)
        }
    }

    /// Whether the second Kronecker side is a Tucker core with its pair.
    pub open spec fn lokr_w2_tucker(&self, base: Seq<char>) -> bool {
        self.lokr_w2_factored(base) && self.has_part(base, ".lokr_t2"@)
    }

    /// The shape of the second Kronecker side once rebuilt.
    pub open spec fn lokr_w2_shape(&self, base: Seq<char>) -> Seq<usize> {
        if !self.lokr_w2_factored(base) {
            self.part_shape(base, ".lokr_w2"@)
        } else if self.lokr_w2_tucker(base) {
            tucker_shape(
                self.part_shape(base, ".lokr_t2"@),
                self.part_shape(base, ".lokr_w2_a"@),
                self.part_shape(base, ".lokr_w2_b"@),
            )
        } else {
            seq![self.part_shape(base, ".lokr_w2_a"@)[0]] + self.part_shape(base, ".lokr_w2_b"@).drop_first()
        }
    }

    /// The first Kronecker side rebuilds, and the element type it rebuilds as.
    pub open spec fn lokr_w1_ok(&self, base: Seq<char>) -> bool {
        if self.lokr_w1_factored(base) {
            self.loadable(base, ".lokr_w1_a"@) && self.loadable(base, ".lokr_w1_b"@) && product_ok(
                self.part_meta(base, ".lokr_w1_a"@),
                self.part_meta(base, ".lokr_w1_b"@),
            )
        } else {
            self.loadable(base, ".lokr_w1"@) && shape_fits(self.part_shape(base, ".lokr_w1"@))
        }
    }

    /// The element type of the first Kronecker side once rebuilt.
    pub open spec fn lokr_w1_dtype(&self, base: Seq<char>) -> candle_core::DType {
        if self.lokr_w1_factored(base) {
            self.part_dtype(base, ".lokr_w1_a"@)
        } else {
            self.part_dtype(base, ".lokr_w1"@)
        }
    }

    /// The second Kronecker side rebuilds.
    pub open spec fn lokr_w2_ok(&self, base: Seq<char>) -> bool {
        if !self.lokr_w2_factored(base) {
            self.loadable(base, ".lokr_w2"@) && shape_fits(self.part_shape(base, ".lokr_w2"@))
        } else if self.lokr_w2_tucker(base) {
            self.loadable(base, ".lokr_t2"@) && self.loadable(base, ".lokr_w2_a"@) && self.loadable(
                base,
                ".lokr_w2_b"@,
            ) && tucker_ok(
                self.part_meta(base, ".lokr_t2"@),
                self.part_meta(base, ".lokr_w2_a"@),
                self.part_meta(base, ".lokr_w2_b"@),
            )
        } else {
            self.loadable(base, ".lokr_w2_a"@) && self.loadable(base, ".lokr_w2_b"@) && product_ok(
                self.part_meta(base, ".lokr_w2_a"@),
                self.part_meta(base, ".lokr_w2_b"@),
            )
        }
    }

    /// The element type of the second Kronecker side once rebuilt.
    pub open spec fn lokr_w2_dtype(&self, base: Seq<char>) -> candle_core::DType {
        if !self.lokr_w2_factored(base) {
            self.part_dtype(base, ".lokr_w2"@)
        } else if self.lokr_w2_tucker(base) {
            self.part_dtype(base, ".lokr_w2_b"@)
        } else {
            self.part_dtype(base, ".lokr_w2_a"@)
        }
    }

    /// The rank that scales a Kronecker-decomposition weight: that of the first factored side.
    pub open spec fn lokr_rank(&self, base: Seq<char>) -> usize {
        if self.lokr_w1_factored(base) {
            self.part_shape(base, ".lokr_w1_b"@)[0]
        } else {
            self.part_shape(base, ".lokr_w2_b"@)[0]
        }
    }

    /// A Kronecker-decomposition weight that rebuilds: both sides rebuild in one element type,
    /// the Kronecker product's sizes fit, and when a side is factored the alpha loads as a
    /// scalar with a rank within reach.
    pub open spec fn lokr_ready(&self, base: Seq<char>) -> bool {
        &&& self.lokr_w1_ok(base)
        &&& self.lokr_w2_ok(base)
        &&& self.lokr_w1_dtype(base) == self.lokr_w2_dtype(base)
        &&& kron_fits(self.lokr_w1_shape(base), self.lokr_w2_shape(base))
        &&& (self.lokr_w1_factored(base) || self.lokr_w2_factored(base)) ==> self.loadable(base, ".alpha"@)
            && alpha_ok(self.part_shape(base, ".alpha"@), self.lokr_rank(base))
    }

    /// What the first Kronecker side holds once rebuilt.
    pub open spec fn lokr_w1_model(&self, base: Seq<char>) -> TensorExpr {
        if self.lokr_w1_factored(base) {
            low_rank_expr(
                stored(base, ".lokr_w1_a"@),
                stored(base, ".lokr_w1_b"@),
                self.part_shape(base, ".lokr_w1_a"@),
                self.part_shape(base, ".lokr_w1_b"@),
            )
        } else {
            stored(base, ".lokr_w1"@)
        }
    }

    /// What the second Kronecker side holds once rebuilt.
    pub open spec fn lokr_w2_model(&self, base: Seq<char>) -> TensorExpr {
        if !self.lokr_w2_factored(base) {
            stored(base, ".lokr_w2"@)
        } else if self.lokr_w2_tucker(base) {
            tucker_expr(stored(base, ".lokr_t2"@), stored(base, ".lokr_w2_a"@), stored(base, ".lokr_w2_b"@))
        } else {
            low_rank_expr(
                stored(base, ".lokr_w2_a"@),
                stored(base, ".lokr_w2_b"@),
                self.part_shape(base, ".lokr_w2_a"@),
                self.part_shape(base, ".lokr_w2_b"@),
            )
        }
    }

    /// What the Kronecker-decomposition weight of `base` holds: the Kronecker product of its
    /// sides, times the stored alpha over the rank when a side is factored, unscaled otherwise.
    pub open spec fn lokr_model(&self, base: Seq<char>) -> TensorExpr {
        let k = kron_expr(
            self.lokr_w1_model(base),
            self.lokr_w2_model(base),
            self.lokr_w1_shape(base),
            self.lokr_w2_shape(base),
        );
        if self.lokr_w1_factored(base) || self.lokr_w2_factored(base) {
            scale_expr(k, stored(base, ".alpha"@), self.lokr_rank(base), self.lokr_w1_dtype(base))
        } else {
            k
        }
    }

    /// The Kronecker-decomposition weight of `base`: `kron(w1, w2) * alpha / rank`, each side
    /// stored whole, as a low-rank pair, or (the second) as a Tucker core with its pair. The
    /// rank is that of the first factored side; with both sides whole there is no scaling.
    pub fn scale_lokr_weight(&self, base: &str) -> (r: Result<Array, InspectorError>)
        ensures
            self.lokr_missing(base@) <==> r matches Err(InspectorError::NotFound),
            r matches Ok(c) ==> c.shape() == lokr_shape(self.lokr_w1_shape(base@), self.lokr_w2_shape(base@)),
            self.lokr_ready(base@) ==> r is Ok,
            r matches Ok(c) ==> c.model() == self.lokr_model(base@),
    {
        let f1 = self.has_suffixed(base, ".lokr_w1_a");
        let f2 = self.has_suffixed(base, ".lokr_w2_a");
        if (f1 && !self.has_suffixed(base, ".lokr_w1_b")) || (!f1 && !self.has_suffixed(base, ".lokr_w1"))
            || (f2 && !self.has_suffixed(base, ".lokr_w2_b")) || (!f2 && !self.has_suffixed(base, ".lokr_w2"))
            || ((f1 || f2) && !self.has_suffixed(base, ".alpha")) {
            return Err(InspectorError::NotFound);
        }
        let w1 = if f1 {
            Factor::LowRank(self.part(base, ".lokr_w1_a")?, self.part(base, ".lokr_w1_b")?)
        } else {
            Factor::Dense(self.part(base, ".lokr_w1")?)
        };
        let w2 = if !f2 {
            Factor::Dense(self.part(base, ".lokr_w2")?)
        } else if self.has_suffixed(base, ".lokr_t2") {
            Factor::Tucker(
                self.part(base, ".lokr_t2")?,
                self.part(base, ".lokr_w2_a")?,
                self.part(base, ".lokr_w2_b")?,
            )
        } else {
            Factor::LowRank(self.part(base, ".lokr_w2_a")?, self.part(base, ".lokr_w2_b")?)
        };
        assert(factor_shape(w1) == self.lokr_w1_shape(base@));
        assert(factor_shape(w2) == self.lokr_w2_shape(base@));
        assert(factor_expr(w1) == self.lokr_w1_model(base@));
        assert(factor_expr(w2) == self.lokr_w2_model(base@));
        if f1 || f2 {
            let alpha = self.part(base, ".alpha")?;
            lokr_delta(&w1, &w2, Some(&alpha))
        } else {
            lokr_delta(&w1, &w2, None)
        }
    }

    /// What rebuilding `base` by the algorithm of network type `t` may give: which missing
    /// tensors give `NotFound`, the shape of a result, and which inputs are sure to rebuild.
    pub open spec fn dispatch_outcome(&self, t: Option<NetworkType>, base: Seq<char>, r: Result<Array, InspectorError>) -> bool {
        &&& is_unsupported(t) ==> unsupported(r)
        &&& is_standard(t) ==> (self.lora_missing(base) <==> not_found(r))
        &&& is_standard(t) ==> (r is Ok ==> r->Ok_0.shape() == lora_shape(
            self.part_shape(base, up_suffix(self.format_view())),
            self.part_shape(base, down_suffix(self.format_view())),
        ))
        &&& is_standard(t) && self.lora_ready(base) ==> r is Ok
        &&& is_standard(t) && r is Ok ==> r->Ok_0.model() == self.lora_model(base)
        &&& t == Some(NetworkType::LoHA) && r is Ok ==> r->Ok_0.model() == self.hada_model(base)
            && r->Ok_0.shape() == self.hada_result_shape(base)
        &&& t == Some(NetworkType::LoKr) && r is Ok ==> r->Ok_0.model() == self.lokr_model(base)
        &&& t == Some(NetworkType::GLoRA) && r is Ok ==> r->Ok_0.model() == self.glora_model(base)
            && r->Ok_0.shape() == glora_shape(self.part_shape(base, ".b1.weight"@), self.part_shape(base, ".b2.weight"@))
        &&& t == Some(NetworkType::DiagOFT) && r is Ok ==> r->Ok_0.model() == stored(base, ".oft_diag"@)
            && r->Ok_0.shape() == self.part_shape(base, ".oft_diag"@)
        &&& t == Some(NetworkType::BOFT) && r is Ok ==> r->Ok_0.model() == stored(base, ".oft_blocks"@)
            && r->Ok_0.shape() == self.part_shape(base, ".oft_blocks"@)
        &&& t == Some(NetworkType::LoHA) ==> (self.hada_missing(base) <==> not_found(r))
        &&& t == Some(NetworkType::LoHA) && self.hada_ready(base) ==> r is Ok
        &&& t == Some(NetworkType::LoKr) ==> (self.lokr_missing(base) <==> not_found(r))
        &&& t == Some(NetworkType::LoKr) ==> (r is Ok ==> r->Ok_0.shape() == lokr_shape(
            self.lokr_w1_shape(base),
            self.lokr_w2_shape(base),
        ))
        &&& t == Some(NetworkType::LoKr) && self.lokr_ready(base) ==> r is Ok
        &&& t == Some(NetworkType::GLoRA) ==> (self.glora_missing(base) <==> not_found(r))
        &&& t == Some(NetworkType::GLoRA) && self.glora_ready(base) ==> r is Ok
        &&& t == Some(NetworkType::DiagOFT) ==> (!self.has_part(base, ".oft_diag"@) <==> not_found(r))
        &&& t == Some(NetworkType::DiagOFT) && self.loadable(base, ".oft_diag"@) ==> r is Ok
        &&& t == Some(NetworkType::BOFT) ==> (!self.has_part(base, ".oft_blocks"@) <==> not_found(r))
        &&& t == Some(NetworkType::BOFT) && self.loadable(base, ".oft_blocks"@) ==> r is Ok
    }

    /// The weight of `base` rebuilt by the algorithm of network type `t`.
    pub fn scale_weight_by(&self, t: Option<NetworkType>, base: &str) -> (r: Result<Array, InspectorError>)
        ensures
            self.dispatch_outcome(t, base@, r),
    {
        match t {
            None => self.scale_lora_weight(base),
            Some(NetworkType::LoRA) => self.scale_lora_weight(base),
            Some(NetworkType::LoRAFA) => self.scale_lora_weight(base),
            Some(NetworkType::DyLoRA) => self.scale_lora_weight(base),
            Some(NetworkType::LoCon) => self.scale_lora_weight(base),
            Some(NetworkType::LoHA) => self.scale_hada_weight(base),
            Some(NetworkType::LoKr) => self.scale_lokr_weight(base),
            Some(NetworkType::GLoRA) => self.scale_glora_weights(base),
            Some(NetworkType::DiagOFT) => self.stored_weight(base, ".oft_diag"),
            Some(NetworkType::BOFT) => self.stored_weight(base, ".oft_blocks"),
            Some(_) => Err(InspectorError::UnsupportedNetworkType),
        }
    }

    /// A single stored tensor that is the weight itself, returned unscaled: the diagonal
    /// orthogonal transform under `.oft_diag`, the block one under `.oft_blocks`.
    pub fn stored_weight(&self, base: &str, suffix: &str) -> (r: Result<Array, InspectorError>)
        ensures
            !self.has_part(base@, suffix@) <==> r matches Err(InspectorError::NotFound),
            r matches Ok(c) ==> c.shape() == self.part_shape(base@, suffix@) && c.model() == stored(base@, suffix@),
            self.loadable(base@, suffix@) ==> r is Ok,
    {
        self.part(base, suffix)
    }
}

} // verus!
