//! Dense arrays of the tensor backend, with their shapes, and the backend operations that the
//! reconstructions use. Every operation here states what it does to shapes and element types,
//! and on which operands it succeeds.

use vstd::prelude::*;

verus! {

#[verifier::external_type_specification]
#[verifier::external_body]
pub struct ExCandleError(candle_core::Error);

#[verifier::external_type_specification]
#[verifier::external_body]
pub struct ExTensor(candle_core::Tensor);


/// The element type of a stored tensor.
#[derive(Debug, Clone, Copy, PartialEq, Eq, Structural)]
pub enum StoredDType {
    Bool,
    U8,
    I8,
    F8E5M2,
    F8E4M3,
    I16,
    U16,
    F16,
    BF16,
    I32,
    U32,
    F32,
    F64,
    I64,
    U64,
    /// An element type that this library does not know.
    Unknown,
}

/// The short name of an element type, as reports print it.
pub open spec fn dtype_name(d: StoredDType) -> Seq<char> {
    match d {
        StoredDType::Bool => "bool"@,
        StoredDType::U8 => "u8"@,
        StoredDType::I8 => "i8"@,
        StoredDType::F8E5M2 => "fp8_e5m2"@,
        StoredDType::F8E4M3 => "fp8_e4m3"@,
        StoredDType::I16 => "i16"@,
        StoredDType::U16 => "u16"@,
        StoredDType::F16 => "fp16"@,
        StoredDType::BF16 => "bf16"@,
        StoredDType::I32 => "i32"@,
        StoredDType::U32 => "u32"@,
        StoredDType::F32 => "fp32"@,
        StoredDType::F64 => "fp64"@,
        StoredDType::I64 => "i64"@,
        StoredDType::U64 => "u64"@,
        StoredDType::Unknown => "unknown"@,
    }
}

impl StoredDType {
    /// The short name of the element type, as reports print it.
    pub fn name(&self) -> (r: String)
        ensures
            r@ == dtype_name(*self),
    {
        let s = match self {
            StoredDType::Bool => "bool",
            StoredDType::U8 => "u8",
            StoredDType::I8 => "i8",
            StoredDType::F8E5M2 => "fp8_e5m2",
            StoredDType::F8E4M3 => "fp8_e4m3",
            StoredDType::I16 => "i16",
            StoredDType::U16 => "u16",
            StoredDType::F16 => "fp16",
            StoredDType::BF16 => "bf16",
            StoredDType::I32 => "i32",
            StoredDType::U32 => "u32",
            StoredDType::F32 => "fp32",
            StoredDType::F64 => "fp64",
            StoredDType::I64 => "i64",
            StoredDType::U64 => "u64",
            StoredDType::Unknown => "unknown",
        };
        String::from_str(s)
    }
}

/// What an array holds, as the backend operations that computed it from stored tensors.
pub enum TensorExpr {
    /// The tensor stored in a file under a name, as the backend loads it.
    Stored(Seq<char>),
    /// A matrix product.
    MatMul(Box<TensorExpr>, Box<TensorExpr>),
    /// The same elements in another shape.
    Reshape(Box<TensorExpr>, Seq<usize>),
    /// The first two dimensions swapped.
    Swap01(Box<TensorExpr>),
    /// A stride-1, unpadded convolution of an input by a kernel.
    Conv2d(Box<TensorExpr>, Box<TensorExpr>),
    /// An elementwise product of arrays of one shape.
    Mul(Box<TensorExpr>, Box<TensorExpr>),
    /// An elementwise sum of arrays of one shape.
    Add(Box<TensorExpr>, Box<TensorExpr>),
    /// An elementwise product with broadcasting.
    BroadcastMul(Box<TensorExpr>, Box<TensorExpr>),
    /// An elementwise quotient with broadcasting.
    BroadcastDiv(Box<TensorExpr>, Box<TensorExpr>),
    /// The values converted to an element type.
    Cast(Box<TensorExpr>, candle_core::DType),
    /// A scalar holding a count.
    Count(u32),
}

/// A tensor of the backend together with its shape, element type, and what it holds.
pub struct Array {
    pub(crate) tensor: candle_core::Tensor,
    pub(crate) shape: Vec<usize>,
    pub(crate) dtype: candle_core::DType,
    pub(crate) model: Ghost<TensorExpr>,
}

impl Array {
    /// The shape of the array.
    pub closed spec fn shape(&self) -> Seq<usize> {
        self.shape@
    }

    /// The element type of the array.
    pub closed spec fn dtype(&self) -> candle_core::DType {
        self.dtype
    }

    /// What the array holds.
    pub closed spec fn model(&self) -> TensorExpr {
        self.model@
    }

    /// The backend tensor.
    pub fn tensor(&self) -> &candle_core::Tensor {
        &self.tensor
    }

    /// The backend tensor, taken out of the array.
    pub fn into_tensor(self) -> candle_core::Tensor {
        self.tensor
    }

    /// The shape of the array.
    pub fn dims(&self) -> (r: &Vec<usize>)
        ensures
            r@ == self.shape(),
    {
        &self.shape
    }

    /// The element type of the array.
    pub fn element_type(&self) -> (r: candle_core::DType)
        ensures
            r == self.dtype(),
    {
        self.dtype
    }
}

/// The number of elements of a shape.
pub open spec fn prod(s: Seq<usize>) -> int
    decreases s.len(),
{
    if s.len() == 0 {
        1
    } else {
        prod(s.drop_last()) * s.last()
    }
}

/// Every leading part of the shape has a number of elements that fits in a `usize`, so the
/// backend can count its elements.
pub open spec fn shape_fits(s: Seq<usize>) -> bool
    decreases s.len(),
{
    s.len() == 0 || (shape_fits(s.drop_last()) && prod(s) <= usize::MAX)
}

/// The element types that the backend multiplies as matrices: the floats but brain floats.
pub open spec fn is_gemm_dtype(d: candle_core::DType) -> bool {
    d == candle_core::DType::F16 || d == candle_core::DType::F32 || d == candle_core::DType::F64
}

/// The floating-point element types.
pub open spec fn is_float_dtype(d: candle_core::DType) -> bool {
    is_gemm_dtype(d) || d == candle_core::DType::BF16
}

/// Relies on candle_core::Tensor::matmul for matrices: rows of `a` by columns of `b`, which
/// succeeds when the inner dimensions agree and both hold one element type that the CPU
/// multiplies. The product's size must fit, or counting it would overflow.
#[verifier::external_body]
pub(crate) fn matmul(a: &Array, b: &Array) -> (r: Result<Array, candle_core::Error>)
    requires
        a.shape().len() == 2,
        b.shape().len() == 2,
        shape_fits(seq![a.shape()[0], b.shape()[1]]),
    ensures
        r matches Ok(c) ==> c.model() == TensorExpr::MatMul(Box::new(a.model()), Box::new(b.model())),
        r matches Ok(c) ==> c.shape() == seq![a.shape()[0], b.shape()[1]] && c.dtype() == a.dtype(),
        a.shape()[1] == b.shape()[0] && a.dtype() == b.dtype() && is_gemm_dtype(a.dtype()) ==> r is Ok,
{
    let m = Ghost(TensorExpr::MatMul(Box::new(a.model@), Box::new(b.model@)));
    a.tensor.matmul(&b.tensor).map(|t| Array { shape: t.dims().to_vec(), dtype: t.dtype(), tensor: t, model: m })
}

/// Relies on candle_core::Tensor::reshape: the result has exactly the shape asked for, and
/// the reshape succeeds when the number of elements is kept.
#[verifier::external_body]
pub(crate) fn reshape(a: &Array, shape: Vec<usize>) -> (r: Result<Array, candle_core::Error>)
    requires
        shape_fits(shape@),
    ensures
        r matches Ok(c) ==> c.model() == TensorExpr::Reshape(Box::new(a.model()), shape@),
        r matches Ok(c) ==> c.shape() == shape@ && c.dtype() == a.dtype(),
        prod(shape@) == prod(a.shape()) ==> r is Ok,
{
    let m = Ghost(TensorExpr::Reshape(Box::new(a.model@), shape@));
    a.tensor.reshape(shape).map(|t| Array { shape: t.dims().to_vec(), dtype: t.dtype(), tensor: t, model: m })
}

/// Relies on candle_core::Tensor::transpose of the first two dimensions: they swap places,
/// and any array of two dimensions or more allows it.
#[verifier::external_body]
pub(crate) fn swap01(a: &Array) -> (r: Result<Array, candle_core::Error>)
    ensures
        r matches Ok(c) ==> c.model() == TensorExpr::Swap01(Box::new(a.model())),
        r matches Ok(c) ==> a.shape().len() >= 2 && c.dtype() == a.dtype() && c.shape() == a.shape().update(
            0,
            a.shape()[1],
        ).update(1, a.shape()[0]),
        a.shape().len() >= 2 ==> r is Ok,
{
    let m = Ghost(TensorExpr::Swap01(Box::new(a.model@)));
    a.tensor.transpose(0, 1).map(|t| Array { shape: t.dims().to_vec(), dtype: t.dtype(), tensor: t, model: m })
}

/// The shape of a stride-1, unpadded two-dimensional convolution of `input` by `kernel`.
pub open spec fn conv2d_shape(input: Seq<usize>, kernel: Seq<usize>) -> Seq<usize> {
    seq![input[0], kernel[0], (input[2] - kernel[2] + 1) as usize, (input[3] - kernel[3] + 1) as usize]
}

/// The sizes that a convolution counts: its output, and the unfolded input that it multiplies
/// by the kernel.
pub open spec fn conv2d_fits(input: Seq<usize>, kernel: Seq<usize>) -> bool {
    let o = conv2d_shape(input, kernel);
    &&& shape_fits(o)
    &&& shape_fits(seq![input[0], o[2], o[3], kernel[2], kernel[3], input[1]])
    &&& shape_fits(seq![o[2], o[3]])
    &&& shape_fits(seq![kernel[2], kernel[3], input[1]])
}

/// Relies on candle_core::Tensor::conv2d with no padding, stride 1, dilation 1 and one group:
/// the output has the input's batch, the kernel's output channels, and the input's spatial
/// size less the kernel's plus one. On the CPU it unfolds the input and multiplies, so it
/// succeeds when the channels agree and both hold one element type that the CPU multiplies.
/// The backend computes the sizes without a check, so a kernel larger than the input, an empty
/// one, or sizes that do not fit are left out.
#[verifier::external_body]
pub(crate) fn conv2d(input: &Array, kernel: &Array) -> (r: Result<Array, candle_core::Error>)
    requires
        input.shape().len() == 4 && kernel.shape().len() == 4 ==> 1 <= kernel.shape()[2]
            <= input.shape()[2] && 1 <= kernel.shape()[3] <= input.shape()[3] && conv2d_fits(
            input.shape(),
            kernel.shape(),
        ),
    ensures
        r matches Ok(c) ==> c.model() == TensorExpr::Conv2d(Box::new(input.model()), Box::new(kernel.model())),
        r matches Ok(c) ==> input.shape().len() == 4 && kernel.shape().len() == 4 && c.shape()
            == conv2d_shape(input.shape(), kernel.shape()) && c.dtype() == input.dtype(),
        input.shape().len() == 4 && kernel.shape().len() == 4 && input.shape()[1] == kernel.shape()[1]
            && input.dtype() == kernel.dtype() && is_gemm_dtype(input.dtype()) ==> r is Ok,
{
    let m = Ghost(TensorExpr::Conv2d(Box::new(input.model@), Box::new(kernel.model@)));
    input.tensor.conv2d(&kernel.tensor, 0, 1, 1, 1).map(|t| Array { shape: t.dims().to_vec(), dtype: t.dtype(), tensor: t, model: m })
}

/// Relies on candle_core::Tensor::mul: an elementwise product of two arrays of one shape and
/// one element type, which always succeeds.
#[verifier::external_body]
pub(crate) fn elementwise_mul(a: &Array, b: &Array) -> (r: Result<Array, candle_core::Error>)
    ensures
        r matches Ok(c) ==> c.model() == TensorExpr::Mul(Box::new(a.model()), Box::new(b.model())),
        r matches Ok(c) ==> a.shape() == b.shape() && c.shape() == a.shape() && c.dtype() == a.dtype(),
        a.shape() == b.shape() && a.dtype() == b.dtype() ==> r is Ok,
{
    let m = Ghost(TensorExpr::Mul(Box::new(a.model@), Box::new(b.model@)));
    a.tensor.mul(&b.tensor).map(|t| Array { shape: t.dims().to_vec(), dtype: t.dtype(), tensor: t, model: m })
}

/// Relies on candle_core::Tensor::add: an elementwise sum of two arrays of one shape and one
/// element type, which always succeeds.
#[verifier::external_body]
pub(crate) fn elementwise_add(a: &Array, b: &Array) -> (r: Result<Array, candle_core::Error>)
    ensures
        r matches Ok(c) ==> c.model() == TensorExpr::Add(Box::new(a.model()), Box::new(b.model())),
        r matches Ok(c) ==> a.shape() == b.shape() && c.shape() == a.shape() && c.dtype() == a.dtype(),
        a.shape() == b.shape() && a.dtype() == b.dtype() ==> r is Ok,
{
    let m = Ghost(TensorExpr::Add(Box::new(a.model@), Box::new(b.model@)));
    a.tensor.add(&b.tensor).map(|t| Array { shape: t.dims().to_vec(), dtype: t.dtype(), tensor: t, model: m })
}

/// The shape of an elementwise operation between arrays of one rank, each dimension the one
/// that is not 1.
pub open spec fn broadcast_shape(a: Seq<usize>, b: Seq<usize>) -> Seq<usize> {
    Seq::new(a.len(), |i: int| if a[i] == 1 { b[i] } else { a[i] })
}

/// Arrays of one rank whose dimensions agree or are 1.
pub open spec fn broadcastable(a: Seq<usize>, b: Seq<usize>) -> bool {
    a.len() == b.len() && forall|i: int| 0 <= i < a.len() ==> a[i] == b[i] || a[i] == 1 || b[i] == 1
}

/// Relies on candle_core::Tensor::broadcast_mul: by a scalar the shape stays; between arrays
/// of one rank each dimension is the one that is not 1. It succeeds on one element type and
/// dimensions that agree or are 1. The broadcast size must fit.
#[verifier::external_body]
pub(crate) fn broadcast_mul(a: &Array, b: &Array) -> (r: Result<Array, candle_core::Error>)
    requires
        b.shape().len() == 0 || (b.shape().len() == a.shape().len() && shape_fits(broadcast_shape(a.shape(), b.shape()))),
    ensures
        r matches Ok(c) ==> c.model() == TensorExpr::BroadcastMul(Box::new(a.model()), Box::new(b.model())),
        r matches Ok(c) ==> c.dtype() == a.dtype() && (b.shape().len() == 0 ==> c.shape() == a.shape())
            && (b.shape().len() == a.shape().len() ==> c.shape() == broadcast_shape(a.shape(), b.shape())),
        a.dtype() == b.dtype() && (b.shape().len() == 0 || broadcastable(a.shape(), b.shape())) ==> r is Ok,
{
    let m = Ghost(TensorExpr::BroadcastMul(Box::new(a.model@), Box::new(b.model@)));
    a.tensor.broadcast_mul(&b.tensor).map(|t| Array { shape: t.dims().to_vec(), dtype: t.dtype(), tensor: t, model: m })
}

/// Relies on candle_core::Tensor::broadcast_div of a float array by a float scalar: the shape
/// stays, and it succeeds on one element type.
#[verifier::external_body]
pub(crate) fn broadcast_div(a: &Array, b: &Array) -> (r: Result<Array, candle_core::Error>)
    requires
        b.shape().len() == 0,
        is_float_dtype(a.dtype()),
    ensures
        r matches Ok(c) ==> c.model() == TensorExpr::BroadcastDiv(Box::new(a.model()), Box::new(b.model())),
        r matches Ok(c) ==> c.shape() == a.shape() && c.dtype() == a.dtype(),
        a.dtype() == b.dtype() ==> r is Ok,
{
    let m = Ghost(TensorExpr::BroadcastDiv(Box::new(a.model@), Box::new(b.model@)));
    a.tensor.broadcast_div(&b.tensor).map(|t| Array { shape: t.dims().to_vec(), dtype: t.dtype(), tensor: t, model: m })
}

/// Relies on candle_core::Tensor::to_dtype: the values converted, the shape kept; the CPU
/// converts between every pair of element types.
#[verifier::external_body]
pub(crate) fn to_dtype(a: &Array, d: candle_core::DType) -> (r: Result<Array, candle_core::Error>)
    ensures
        r matches Ok(c) ==> c.model() == TensorExpr::Cast(Box::new(a.model()), d),
        r matches Ok(c) ==> c.shape() == a.shape() && c.dtype() == d,
        r is Ok,
{
    let m = Ghost(TensorExpr::Cast(Box::new(a.model@), d));
    a.tensor.to_dtype(d).map(|t| Array { shape: t.dims().to_vec(), dtype: t.dtype(), tensor: t, model: m })
}

/// Relies on candle_core::Tensor::new on one integer: a scalar array of 32-bit unsigned
/// integers, of no dimension.
#[verifier::external_body]
pub(crate) fn count_scalar(n: u32) -> (r: Result<Array, candle_core::Error>)
    ensures
        r matches Ok(c) ==> c.model() == TensorExpr::Count(n),
        r matches Ok(c) ==> c.shape() == Seq::<usize>::empty() && c.dtype() == candle_core::DType::U32,
        r is Ok,
{
    let m = Ghost(TensorExpr::Count(n));
    candle_core::Tensor::new(n, &candle_core::Device::Cpu).map(|t| Array { shape: t.dims().to_vec(), dtype: t.dtype(), tensor: t, model: m })
}

/// Relies on candle_core::Tensor::clone: a second handle on the same values, of the same
/// shape and element type.
#[verifier::external_body]
pub(crate) fn copy_array(a: &Array) -> (r: Array)
    ensures
        r.shape() == a.shape(),
        r.dtype() == a.dtype(),
        r.model() == a.model(),
{
    Array { tensor: a.tensor.clone(), shape: a.shape.clone(), dtype: a.dtype, model: Ghost(a.model@) }
}

} // verus!
