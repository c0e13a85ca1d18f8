//! The algebra of each adapter algorithm: from component arrays that are already loaded to
//! the dense weight delta. Shapes are checked before every backend operation that would
//! otherwise fail on them without a clear error.

use vstd::prelude::*;
use crate::InspectorError;
use crate::tensor::{
    broadcast_div, broadcast_mul, broadcast_shape, broadcastable, conv2d, conv2d_fits,
    conv2d_shape, count_scalar, elementwise_add, elementwise_mul, is_float_dtype, is_gemm_dtype,
    matmul, prod, reshape, shape_fits, swap01, to_dtype, copy_array, Array, TensorExpr,
};
use candle_core::DType;

verus! {

/// An error of the backend or of the operands' shapes.
pub open spec fn backend_or_shape(e: InspectorError) -> bool {
    e is Candle || e is Msg
}

/// A backend failure, as this library reports it.
pub fn backend<T>(r: Result<T, candle_core::Error>) -> (out: Result<T, InspectorError>)
    ensures
        r matches Ok(v) ==> out == Ok::<T, InspectorError>(v),
        r is Err ==> out matches Err(InspectorError::Candle(_)),
{
    match r {
        Ok(v) => Ok(v),
        Err(e) => Err(InspectorError::Candle(e)),
    }
}

fn shape_error(what: &str) -> (e: InspectorError)
    ensures
        e is Msg,
{
    InspectorError::Msg(String::from_str(what))
}

/// The matrix product `a @ b`.
pub open spec fn mm(a: TensorExpr, b: TensorExpr) -> TensorExpr {
    TensorExpr::MatMul(Box::new(a), Box::new(b))
}

/// `a` in shape `s`.
pub open spec fn reshaped(a: TensorExpr, s: Seq<usize>) -> TensorExpr {
    TensorExpr::Reshape(Box::new(a), s)
}

/// `a` with its first two dimensions swapped.
pub open spec fn swap(a: TensorExpr) -> TensorExpr {
    TensorExpr::Swap01(Box::new(a))
}

/// `a` converted to element type `d`.
pub open spec fn cast(a: TensorExpr, d: DType) -> TensorExpr {
    TensorExpr::Cast(Box::new(a), d)
}

/// An array of element type `d` as computations take it: brain floats widened.
pub open spec fn compat_expr(a: TensorExpr, d: DType) -> TensorExpr {
    if d == DType::BF16 {
        cast(a, DType::F32)
    } else {
        a
    }
}

/// `t` times `alpha / rank`: the quotient formed in double precision, converted to `d`, the
/// element type of `t`, and multiplied in.
pub open spec fn scale_expr(t: TensorExpr, alpha: TensorExpr, rank: usize, d: DType) -> TensorExpr {
    TensorExpr::BroadcastMul(
        Box::new(t),
        Box::new(cast(
            TensorExpr::BroadcastDiv(
                Box::new(cast(alpha, DType::F64)),
                Box::new(cast(TensorExpr::Count(rank as u32), DType::F64)),
            ),
            d,
        )),
    )
}

/// What an optional alpha holds.
pub open spec fn opt_model(alpha: Option<&Array>) -> Option<TensorExpr> {
    match alpha {
        Some(a) => Some(a.model()),
        None => None,
    }
}

/// `t` scaled by `alpha / rank` when an alpha is given.
pub open spec fn maybe_scale_expr(t: TensorExpr, alpha: Option<TensorExpr>, rank: usize, d: DType) -> TensorExpr {
    match alpha {
        Some(a) => scale_expr(t, a, rank, d),
        None => t,
    }
}

/// The shape and element type of an array.
pub open spec fn meta(a: Array) -> (Seq<usize>, DType) {
    (a.shape(), a.dtype())
}

/// The element type that computations use: brain floats widen to single precision, other
/// types stay.
pub open spec fn compat(d: DType) -> DType {
    if d == DType::BF16 {
        DType::F32
    } else {
        d
    }
}

proof fn lemma_fits_prefix(s: Seq<usize>, k: int)
    requires
        shape_fits(s),
        0 <= k <= s.len(),
    ensures
        shape_fits(s.subrange(0, k)),
    decreases s.len() - k,
{
    if k == s.len() {
        assert(s.subrange(0, k) =~= s);
    } else {
        lemma_fits_prefix(s.drop_last(), k);
        assert(s.drop_last().subrange(0, k) =~= s.subrange(0, k));
    }
}

/// Whether every leading part of a shape has a number of elements that fits.
pub fn fits(s: &Vec<usize>) -> (r: bool)
    ensures
        r == shape_fits(s@),
{
    let mut acc: usize = 1;
    let mut i: usize = 0;
    assert(s@.subrange(0, 0) =~= Seq::<usize>::empty());
    while i < s.len()
        invariant
            i <= s@.len(),
            shape_fits(s@.subrange(0, i as int)),
            acc == prod(s@.subrange(0, i as int)),
        decreases s.len() - i,
    {
        let ghost next = s@.subrange(0, i + 1);
        assert(next.drop_last() =~= s@.subrange(0, i as int));
        match acc.checked_mul(s[i]) {
            Some(v) => {
                acc = v;
            },
            None => {
                proof {
                    if shape_fits(s@) {
                        lemma_fits_prefix(s@, i + 1);
                    }
                }
                return false;
            },
        }
        i = i + 1;
    }
    assert(s@.subrange(0, s@.len() as int) =~= s@);
    true
}

fn two(a: usize, b: usize) -> (r: Vec<usize>)
    ensures
        r@ == seq![a, b],
{
    let mut v: Vec<usize> = Vec::new();
    v.push(a);
    v.push(b);
    assert(v@ =~= seq![a, b]);
    v
}

/// The array in an element type that every backend operation takes: brain floats become
/// single precision, other types stay.
pub fn to_compatible_dtype(a: Array) -> (r: Result<Array, InspectorError>)
    ensures
        r matches Ok(c) ==> c.model() == compat_expr(a.model(), a.dtype()),
        r matches Ok(c) ==> c.shape() == a.shape() && c.dtype() == compat(a.dtype()),
        r is Ok,
{
    match a.element_type() {
        DType::BF16 => backend(to_dtype(&a, DType::F32)),
        _ => Ok(a),
    }
}

/// An alpha of shape `alpha` that scales: a scalar, with a rank that the backend can hold as
/// an integer.
pub open spec fn alpha_ok(alpha: Seq<usize>, rank: usize) -> bool {
    alpha.len() == 0 && rank <= u32::MAX
}

/// An optional alpha that scales: none, or one that `alpha_ok` accepts.
pub open spec fn scale_ok(alpha: Option<&Array>, rank: usize) -> bool {
    match alpha {
        Some(a) => alpha_ok(a.shape(), rank),
        None => true,
    }
}

/// `t` times `alpha / rank`. The quotient is formed in double precision and taken to the
/// element type of `t` before the product.
pub fn apply_scale(t: Array, alpha: &Array, rank: usize) -> (r: Result<Array, InspectorError>)
    ensures
        r matches Ok(c) ==> c.model() == scale_expr(t.model(), alpha.model(), rank, t.dtype()),
        r matches Err(e) ==> backend_or_shape(e),
        r matches Ok(c) ==> c.shape() == t.shape() && c.dtype() == t.dtype(),
        alpha.shape().len() != 0 ==> r matches Err(InspectorError::Msg(_)),
        alpha.shape().len() == 0 && rank <= u32::MAX ==> r is Ok,
{
    if alpha.dims().len() != 0 {
        return Err(shape_error("alpha is not a scalar"));
    }
    if rank > u32::MAX as usize {
        return Err(shape_error("rank is too large"));
    }
    let a64 = backend(to_dtype(alpha, DType::F64))?;
    let n = backend(count_scalar(rank as u32))?;
    let n64 = backend(to_dtype(&n, DType::F64))?;
    let s = backend(broadcast_div(&a64, &n64))?;
    let s_t = backend(to_dtype(&s, t.element_type()))?;
    backend(broadcast_mul(&t, &s_t))
}

/// `t` scaled by `alpha / rank` when an alpha is given, unchanged otherwise.
pub fn maybe_scale(t: Array, alpha: Option<&Array>, rank: usize) -> (r: Result<Array, InspectorError>)
    ensures
        r matches Ok(c) ==> c.model() == maybe_scale_expr(t.model(), opt_model(alpha), rank, t.dtype()),
        r matches Err(e) ==> backend_or_shape(e),
        r matches Ok(c) ==> c.shape() == t.shape() && c.dtype() == t.dtype(),
        scale_ok(alpha, rank) ==> r is Ok,
{
    match alpha {
        Some(a) => apply_scale(t, a, rank),
        None => Ok(t),
    }
}

/// The shape of the plain low-rank delta of an up factor of shape `u` and a down factor of
/// shape `d`: a matrix product for matrices, the same with two trailing unit dimensions for
/// pointwise convolutions, a convolution of the factors otherwise.
pub open spec fn lora_shape(u: Seq<usize>, d: Seq<usize>) -> Seq<usize> {
    if d.len() == 2 {
        seq![u[0], d[1]]
    } else if d.len() == 4 && d[2] == 1 && d[3] == 1 {
        seq![u[0], d[1], 1usize, 1usize]
    } else {
        seq![u[0], d[1], (d[2] - u[2] + 1) as usize, (d[3] - u[3] + 1) as usize]
    }
}

/// The plain low-rank product of a (widened) up factor `u` and down factor `d` of shapes `us`
/// and `ds`: a matrix product; for pointwise four-dimensional factors the product of their
/// matrix forms given back two unit dimensions; otherwise the down factor, channels first,
/// convolved by the up factor, channels swapped back.
pub open spec fn lora_product(u: TensorExpr, d: TensorExpr, us: Seq<usize>, ds: Seq<usize>) -> TensorExpr {
    if ds.len() == 2 {
        mm(u, d)
    } else if ds.len() == 4 && ds[2] == 1 && ds[3] == 1 {
        reshaped(mm(reshaped(u, seq![us[0], us[1]]), reshaped(d, seq![ds[0], ds[1]])), seq![us[0], ds[1], 1usize, 1usize])
    } else {
        swap(TensorExpr::Conv2d(Box::new(swap(d)), Box::new(u)))
    }
}

/// The element type of the plain low-rank product: the up factor's, or for a convolution
/// the down factor's, once widened.
pub open spec fn lora_dtype(ut: DType, dt: DType, ds: Seq<usize>) -> DType {
    if ds.len() == 2 || (ds.len() == 4 && ds[2] == 1 && ds[3] == 1) {
        compat(ut)
    } else {
        compat(dt)
    }
}

/// A four-dimensional shape with its first two dimensions swapped.
pub open spec fn swapped(d: Seq<usize>) -> Seq<usize> {
    d.update(0, d[1]).update(1, d[0])
}

/// Factors that the plain low-rank reconstruction takes: one float element type once brain
/// floats are widened, shapes whose sizes fit, and either matrices with matching inner
/// dimensions, or four-dimensional factors whose up factor is pointwise, with matching
/// channels, and whose product or convolution has sizes that fit.
pub open spec fn lora_ok(u: Seq<usize>, d: Seq<usize>, ut: DType, dt: DType) -> bool {
    &&& compat(ut) == compat(dt)
    &&& is_gemm_dtype(compat(ut))
    &&& shape_fits(u)
    &&& shape_fits(d)
    &&& u.len() == d.len()
    &&& {
        ||| (d.len() == 2 && u[1] == d[0] && shape_fits(seq![u[0], d[1]]))
        ||| (d.len() == 4 && u[2] == 1 && u[3] == 1 && u[1] == d[0] && d[2] == 1 && d[3] == 1
            && shape_fits(seq![u[0], d[1]]))
        ||| (d.len() == 4 && u[2] == 1 && u[3] == 1 && u[1] == d[0] && !(d[2] == 1 && d[3] == 1)
            && 1 <= d[2] && 1 <= d[3] && conv2d_fits(swapped(d), u))
    }
}

proof fn lemma_prod_unit_tail(s: Seq<usize>)
    requires
        s.len() == 4,
        s[2] == 1,
        s[3] == 1,
    ensures
        prod(s) == prod(seq![s[0], s[1]]),
        s.subrange(0, 2) == seq![s[0], s[1]],
{
    assert(s.drop_last() =~= s.subrange(0, 3));
    assert(s.subrange(0, 3).drop_last() =~= seq![s[0], s[1]]);
    assert(s.subrange(0, 2) =~= seq![s[0], s[1]]);
    assert(prod(s) == prod(s.drop_last()) * 1);
    assert(prod(s.subrange(0, 3)) == prod(seq![s[0], s[1]]) * 1);
}

fn conv_fits(input: &Vec<usize>, kernel: &Vec<usize>) -> (r: bool)
    requires
        input@.len() == 4,
        kernel@.len() == 4,
        1 <= kernel@[2] <= input@[2],
        1 <= kernel@[3] <= input@[3],
    ensures
        r == conv2d_fits(input@, kernel@),
{
    let o2 = input[2] - kernel[2] + 1;
    let o3 = input[3] - kernel[3] + 1;
    let mut o: Vec<usize> = Vec::new();
    o.push(input[0]);
    o.push(kernel[0]);
    o.push(o2);
    o.push(o3);
    assert(o@ =~= conv2d_shape(input@, kernel@));
    let mut unfolded: Vec<usize> = Vec::new();
    unfolded.push(input[0]);
    unfolded.push(o2);
    unfolded.push(o3);
    unfolded.push(kernel[2]);
    unfolded.push(kernel[3]);
    unfolded.push(input[1]);
    assert(unfolded@ =~= seq![input@[0], o@[2], o@[3], kernel@[2], kernel@[3], input@[1]]);
    let spatial = two(o2, o3);
    let mut k: Vec<usize> = Vec::new();
    k.push(kernel[2]);
    k.push(kernel[3]);
    k.push(input[1]);
    assert(k@ =~= seq![kernel@[2], kernel@[3], input@[1]]);
    fits(&o) && fits(&unfolded) && fits(&spatial) && fits(&k)
}

/// The plain low-rank delta `up @ down`, scaled by `alpha / rank` when an alpha is given,
/// where the rank is the first dimension of `down`. Brain-float factors are widened first.
/// Matrices multiply; four-dimensional factors with unit trailing dimensions multiply as
/// matrices and get their unit dimensions back; other four-dimensional factors combine as a
/// convolution of the down factor by the up factor.
pub fn lora_delta(up: Array, down: Array, alpha: Option<&Array>) -> (r: Result<Array, InspectorError>)
    ensures
        r matches Ok(c) ==> c.model() == maybe_scale_expr(
            lora_product(
                compat_expr(up.model(), up.dtype()),
                compat_expr(down.model(), down.dtype()),
                up.shape(),
                down.shape(),
            ),
            opt_model(alpha),
            down.shape()[0],
            lora_dtype(up.dtype(), down.dtype(), down.shape()),
        ),
        r matches Err(e) ==> backend_or_shape(e),
        r matches Ok(c) ==> down.shape().len() >= 2 && up.shape().len() == down.shape().len()
            && c.shape() == lora_shape(up.shape(), down.shape()),
        down.shape().len() < 2 ==> r is Err,
        lora_ok(up.shape(), down.shape(), up.dtype(), down.dtype()) && scale_ok(alpha, down.shape()[0])
            ==> r is Ok,
{
    let ghost us = up.shape();
    let ghost ds = down.shape();
    let up = to_compatible_dtype(up)?;
    let down = to_compatible_dtype(down)?;
    if up.dims().len() != down.dims().len() || down.dims().len() < 2 {
        return Err(shape_error("factors of different or too few dimensions"));
    }
    let ud = up.dims().clone();
    let dd = down.dims().clone();
    let rank = dd[0];
    if dd.len() == 2 {
        let out = two(ud[0], dd[1]);
        if !fits(&out) {
            return Err(shape_error("shape too large"));
        }
        let p = backend(matmul(&up, &down))?;
        maybe_scale(p, alpha, rank)
    } else if dd.len() == 4 && dd[2] == 1 && dd[3] == 1 {
        let u2 = two(ud[0], ud[1]);
        let d2 = two(dd[0], dd[1]);
        let out = two(ud[0], dd[1]);
        proof {
            if lora_ok(us, ds, up.dtype(), down.dtype()) {
                lemma_fits_prefix(us, 2);
                lemma_fits_prefix(ds, 2);
                lemma_prod_unit_tail(us);
                lemma_prod_unit_tail(ds);
            }
        }
        if !fits(&u2) || !fits(&d2) || !fits(&out) {
            return Err(shape_error("shape too large"));
        }
        let um = backend(reshape(&up, u2))?;
        let dm = backend(reshape(&down, d2))?;
        let p = backend(matmul(&um, &dm))?;
        let mut out4 = two(ud[0], dd[1]);
        out4.push(1);
        out4.push(1);
        proof {
            lemma_fits_push_one(seq![ud@[0], dd@[1]]);
            lemma_fits_push_one(seq![ud@[0], dd@[1]].push(1));
            assert(out4@ =~= seq![ud@[0], dd@[1]].push(1).push(1));
        }
        let p4 = backend(reshape(&p, out4))?;
        assert(p4.shape() =~= lora_shape(us, ds));
        maybe_scale(p4, alpha, rank)
    } else {
        if dd.len() != 4 || ud[2] < 1 || ud[2] > dd[2] || ud[3] < 1 || ud[3] > dd[3] {
            return Err(shape_error("convolution factors of mismatched sizes"));
        }
        let mut sw: Vec<usize> = Vec::new();
        sw.push(dd[1]);
        sw.push(dd[0]);
        sw.push(dd[2]);
        sw.push(dd[3]);
        assert(sw@ =~= swapped(ds));
        if !conv_fits(&sw, &ud) {
            return Err(shape_error("shape too large"));
        }
        let input = backend(swap01(&down))?;
        assert(input.shape() =~= swapped(ds));
        let conv = backend(conv2d(&input, &up))?;
        let c = backend(swap01(&conv))?;
        assert(c.shape() =~= lora_shape(us, ds));
        maybe_scale(c, alpha, rank)
    }
}

/// The product of `s[from..to]`, if it fits in a `usize`.
fn checked_prod(s: &Vec<usize>, from: usize, to: usize) -> (r: Option<usize>)
    requires
        from <= to <= s@.len(),
    ensures
        r matches Some(p) ==> p == prod(s@.subrange(from as int, to as int)),
{
    let mut acc: usize = 1;
    let mut i: usize = from;
    assert(s@.subrange(from as int, from as int) =~= Seq::<usize>::empty());
    while i < to
        invariant
            from <= i <= to <= s@.len(),
            acc == prod(s@.subrange(from as int, i as int)),
        decreases to - i,
    {
        assert(s@.subrange(from as int, i + 1).drop_last() =~= s@.subrange(from as int, i as int));
        match acc.checked_mul(s[i]) {
            Some(v) => {
                acc = v;
            },
            None => {
                return None;
            },
        }
        i = i + 1;
    }
    Some(acc)
}

proof fn lemma_fits_push_one(s: Seq<usize>)
    requires
        shape_fits(s),
    ensures
        shape_fits(s.push(1)),
        prod(s.push(1)) == prod(s),
{
    assert(s.push(1).drop_last() =~= s);
    assert(s.push(1).last() == 1);
    assert(prod(s.push(1)) == prod(s) * 1);
    if s.len() == 0 {
        assert(s =~= Seq::<usize>::empty());
        assert(prod(s) == 1);
    }
}

proof fn lemma_prod_single(x: usize)
    ensures
        prod(seq![x]) == x,
{
    assert(seq![x].drop_last() =~= Seq::<usize>::empty());
    assert(prod(Seq::<usize>::empty()) == 1);
    assert(seq![x].last() == x);
    assert(prod(seq![x]) == 1 * x);
}

/// The array as a matrix: its first dimension, and all the others flattened.
pub fn flatten_keep_first(a: &Array) -> (r: Result<Array, InspectorError>)
    ensures
        r matches Ok(c) ==> c.model() == reshaped(a.model(), flat_first(a.shape())),
        r matches Err(e) ==> backend_or_shape(e),
        r matches Ok(c) ==> a.shape().len() >= 1 && c.shape() == seq![a.shape()[0], prod(a.shape().drop_first()) as usize]
            && c.dtype() == a.dtype(),
{
    let d = a.dims();
    if d.len() == 0 {
        return Err(shape_error("a scalar has no matrix form"));
    }
    let rest = match checked_prod(d, 1, d.len()) {
        Some(p) => p,
        None => return Err(shape_error("shape too large")),
    };
    assert(d@.subrange(1, d@.len() as int) =~= d@.drop_first());
    let m = two(d[0], rest);
    if !fits(&m) {
        return Err(shape_error("shape too large"));
    }
    let c = backend(reshape(a, m))?;
    Ok(c)
}

/// The array as a matrix: all dimensions but the last flattened, and its last dimension.
pub fn flatten_keep_last(a: &Array) -> (r: Result<Array, InspectorError>)
    ensures
        r matches Ok(c) ==> c.model() == reshaped(a.model(), flat_last(a.shape())),
        r matches Err(e) ==> backend_or_shape(e),
        r matches Ok(c) ==> a.shape().len() >= 1 && c.shape() == seq![prod(a.shape().drop_last()) as usize, a.shape().last()]
            && c.dtype() == a.dtype(),
{
    let d = a.dims();
    if d.len() == 0 {
        return Err(shape_error("a scalar has no matrix form"));
    }
    let n = d.len();
    let head = match checked_prod(d, 0, n - 1) {
        Some(p) => p,
        None => return Err(shape_error("shape too large")),
    };
    assert(d@.subrange(0, n - 1) =~= d@.drop_last());
    let m = two(head, d[n - 1]);
    if !fits(&m) {
        return Err(shape_error("shape too large"));
    }
    let c = backend(reshape(a, m))?;
    Ok(c)
}

/// The rank of a factor: its first dimension.
fn rank_of(a: &Array) -> (r: Result<usize, InspectorError>)
    ensures
        r matches Err(e) ==> backend_or_shape(e),
        r matches Ok(n) ==> a.shape().len() >= 1 && n == a.shape()[0],
        a.shape().len() >= 1 <==> r is Ok,
{
    if a.dims().len() == 0 {
        Err(shape_error("a scalar has no rank"))
    } else {
        Ok(a.dims()[0])
    }
}

/// `a @ b` for matrices, after checking that the product's size fits.
fn product(a: &Array, b: &Array) -> (r: Result<Array, InspectorError>)
    ensures
        r matches Ok(c) ==> c.model() == mm(a.model(), b.model()),
        r matches Err(e) ==> backend_or_shape(e),
        r matches Ok(c) ==> a.shape().len() == 2 && b.shape().len() == 2 && c.shape() == seq![a.shape()[0], b.shape()[1]]
            && c.dtype() == a.dtype(),
        a.shape().len() == 2 && b.shape().len() == 2 && a.shape()[1] == b.shape()[0] && a.dtype()
            == b.dtype() && is_gemm_dtype(a.dtype()) && shape_fits(seq![a.shape()[0], b.shape()[1]])
            ==> r is Ok,
        product_ok(meta(*a), meta(*b)) ==> r is Ok,
{
    if a.dims().len() != 2 || b.dims().len() != 2 {
        return Err(shape_error("matrix factors expected"));
    }
    let out = two(a.dims()[0], b.dims()[1]);
    if !fits(&out) {
        return Err(shape_error("shape too large"));
    }
    backend(matmul(a, b))
}

/// Matrices `a @ b` multiply: matching inner dimensions, one element type that the CPU
/// multiplies, and a product whose size fits.
pub open spec fn product_ok(a: (Seq<usize>, DType), b: (Seq<usize>, DType)) -> bool {
    &&& a.0.len() == 2
    &&& b.0.len() == 2
    &&& a.0[1] == b.0[0]
    &&& a.1 == b.1
    &&& is_gemm_dtype(a.1)
    &&& shape_fits(seq![a.0[0], b.0[1]])
}

/// A shape read as a matrix of its first dimension.
pub open spec fn flat_first(s: Seq<usize>) -> Seq<usize> {
    seq![s[0], prod(s.drop_first()) as usize]
}

/// A shape read as a matrix of its last dimension.
pub open spec fn flat_last(s: Seq<usize>) -> Seq<usize> {
    seq![prod(s.drop_last()) as usize, s.last()]
}

/// The Tucker contraction `wb^T @ (t @ wa)`.
pub open spec fn tucker_expr(t: TensorExpr, wa: TensorExpr, wb: TensorExpr) -> TensorExpr {
    mm(swap(wb), mm(t, wa))
}

/// The elementwise product of the two low-rank products of a Hadamard decomposition, each
/// factor read as a matrix unless all four are matrices already.
pub open spec fn hada_product(
    w1a: (TensorExpr, Seq<usize>),
    w1b: (TensorExpr, Seq<usize>),
    w2a: (TensorExpr, Seq<usize>),
    w2b: (TensorExpr, Seq<usize>),
) -> TensorExpr {
    if w1a.1.len() == 2 && w1b.1.len() == 2 && w2a.1.len() == 2 && w2b.1.len() == 2 {
        TensorExpr::Mul(Box::new(mm(w1a.0, w1b.0)), Box::new(mm(w2a.0, w2b.0)))
    } else {
        TensorExpr::Mul(
            Box::new(mm(reshaped(w1a.0, flat_last(w1a.1)), reshaped(w1b.0, flat_first(w1b.1)))),
            Box::new(mm(reshaped(w2a.0, flat_last(w2a.1)), reshaped(w2b.0, flat_first(w2b.1)))),
        )
    }
}

/// What an array holds, with its shape.
pub open spec fn held(a: Array) -> (TensorExpr, Seq<usize>) {
    (a.model(), a.shape())
}

/// The shape of a Hadamard-decomposition delta without Tucker cores.
pub open spec fn hada_shape(w1a: Seq<usize>, w1b: Seq<usize>) -> Seq<usize> {
    seq![prod(w1a.drop_last()) as usize, prod(w1b.drop_first()) as usize]
}

/// The shape of a Tucker contraction `wb^T @ (t @ wa)`.
pub open spec fn tucker_shape(t: Seq<usize>, wa: Seq<usize>, wb: Seq<usize>) -> Seq<usize> {
    seq![wb[1], wa[1]]
}

/// The shape of the core applied to its first factor, `t @ wa`.
pub open spec fn core_shape(t: Seq<usize>, wa: Seq<usize>) -> Seq<usize> {
    seq![t[0], wa[1]]
}

/// A Tucker core and its factors that contract: matrices with matching dimensions, one
/// element type that the CPU multiplies, and sizes that fit.
pub open spec fn tucker_ok(t: (Seq<usize>, DType), wa: (Seq<usize>, DType), wb: (Seq<usize>, DType)) -> bool {
    &&& t.0.len() == 2
    &&& wa.0.len() == 2
    &&& wb.0.len() == 2
    &&& t.0[1] == wa.0[0]
    &&& wb.0[0] == t.0[0]
    &&& t.1 == wa.1
    &&& wb.1 == t.1
    &&& is_gemm_dtype(t.1)
    &&& shape_fits(core_shape(t.0, wa.0))
    &&& shape_fits(tucker_shape(t.0, wa.0, wb.0))
}

/// The Tucker contraction `wb^T @ (t @ wa)`: the core contracted with both factors along its
/// two axes.
pub fn rebuild_tucker(t: &Array, wa: &Array, wb: &Array) -> (r: Result<Array, InspectorError>)
    ensures
        r matches Ok(c) ==> c.model() == tucker_expr(t.model(), wa.model(), wb.model()),
        r matches Err(e) ==> backend_or_shape(e),
        r matches Ok(c) ==> c.shape() == tucker_shape(t.shape(), wa.shape(), wb.shape()) && c.dtype() == wb.dtype(),
        tucker_ok(meta(*t), meta(*wa), meta(*wb)) ==> r is Ok,
{
    let x = product(t, wa)?;
    if wb.dims().len() != 2 {
        return Err(shape_error("matrix factors expected"));
    }
    let wbt = backend(swap01(wb))?;
    let y = product(&wbt, &x)?;
    assert(y.shape() =~= tucker_shape(t.shape(), wa.shape(), wb.shape()));
    Ok(y)
}

/// Factors of a Hadamard decomposition without cores that the reconstruction takes: matrices
/// of one element type that the CPU multiplies, each pair multiplying, both products of one
/// shape, and a scalar alpha with a rank the backend can hold.
pub open spec fn hada_ok(
    w1a: (Seq<usize>, DType),
    w1b: (Seq<usize>, DType),
    w2a: (Seq<usize>, DType),
    w2b: (Seq<usize>, DType),
    alpha: Seq<usize>,
) -> bool {
    &&& product_ok(w1a, w1b)
    &&& product_ok(w2a, w2b)
    &&& w1a.1 == w2a.1
    &&& seq![w1a.0[0], w1b.0[1]] == seq![w2a.0[0], w2b.0[1]]
    &&& alpha_ok(alpha, w1b.0[0])
}

/// Cores and factors of a Hadamard decomposition with Tucker cores that the reconstruction
/// takes: both contractions work, their product multiplies, and the alpha scales.
pub open spec fn hada_tucker_ok(
    w1a: (Seq<usize>, DType),
    w1b: (Seq<usize>, DType),
    w2a: (Seq<usize>, DType),
    w2b: (Seq<usize>, DType),
    alpha: Seq<usize>,
    t1: (Seq<usize>, DType),
    t2: (Seq<usize>, DType),
) -> bool {
    &&& tucker_ok(t1, w1a, w1b)
    &&& tucker_ok(t2, w2a, w2b)
    &&& w1b.1 == w2b.1
    &&& w1a.0[1] == w2b.0[1]
    &&& shape_fits(seq![w1b.0[1], w2a.0[1]])
    &&& alpha_ok(alpha, w1b.0[0])
}

/// The Hadamard-decomposition delta `(w1a @ w1b) * (w2a @ w2b) * alpha / rank`, the middle
/// product taken elementwise, where the rank is the first dimension of `w1b`. Each `a` factor
/// is read as a matrix of its last dimension, each `b` factor as a matrix of its first. With
/// Tucker cores the delta is `rebuild(t1, w1a, w1b) @ rebuild(t2, w2a, w2b) * alpha / rank`,
/// where `rebuild(t, wa, wb) = wb^T @ (t @ wa)`.
pub fn hada_delta(
    w1a: &Array,
    w1b: &Array,
    w2a: &Array,
    w2b: &Array,
    alpha: &Array,
    cores: Option<(&Array, &Array)>,
) -> (r: Result<Array, InspectorError>)
    ensures
        r matches Ok(c) ==> c.model() == match cores {
            None => scale_expr(hada_product(held(*w1a), held(*w1b), held(*w2a), held(*w2b)), alpha.model(), w1b.shape()[0], w1a.dtype()),
            Some((t1, t2)) => scale_expr(
                mm(tucker_expr(t1.model(), w1a.model(), w1b.model()), tucker_expr(t2.model(), w2a.model(), w2b.model())),
                alpha.model(),
                w1b.shape()[0],
                w1b.dtype(),
            ),
        },
        r matches Err(e) ==> backend_or_shape(e),
        r matches Ok(c) ==> match cores {
            None => c.shape() == hada_shape(w1a.shape(), w1b.shape()),
            Some((t1, _)) => c.shape() == seq![w1b.shape()[1], w2a.shape()[1]],
        },
        match cores {
            None => hada_ok(meta(*w1a), meta(*w1b), meta(*w2a), meta(*w2b), alpha.shape()) ==> r is Ok,
            Some((t1, t2)) => hada_tucker_ok(
                meta(*w1a),
                meta(*w1b),
                meta(*w2a),
                meta(*w2b),
                alpha.shape(),
                meta(*t1),
                meta(*t2),
            ) ==> r is Ok,
        },
{
    let rank = rank_of(w1b)?;
    let prod = match cores {
        Some((t1, t2)) => {
            let one = rebuild_tucker(t1, w1a, w1b)?;
            let two = rebuild_tucker(t2, w2a, w2b)?;
            let p = product(&one, &two)?;
            assert(p.shape() =~= seq![w1b.shape()[1], w2a.shape()[1]]);
            p
        },
        None => {
            if w1a.dims().len() == 2 && w1b.dims().len() == 2 && w2a.dims().len() == 2 && w2b.dims().len() == 2 {
                let one = product(w1a, w1b)?;
                let two = product(w2a, w2b)?;
                proof {
                    assert(w1a.shape().drop_last() =~= seq![w1a.shape()[0]]);
                    assert(w1b.shape().drop_first() =~= seq![w1b.shape()[1]]);
                    lemma_prod_single(w1a.shape()[0]);
                    lemma_prod_single(w1b.shape()[1]);
                    assert(one.shape() =~= hada_shape(w1a.shape(), w1b.shape()));
                }
                backend(elementwise_mul(&one, &two))?
            } else {
                let u1 = flatten_keep_last(w1a)?;
                let d1 = flatten_keep_first(w1b)?;
                let u2 = flatten_keep_last(w2a)?;
                let d2 = flatten_keep_first(w2b)?;
                let one = product(&u1, &d1)?;
                let two = product(&u2, &d2)?;
                assert(one.shape() =~= hada_shape(w1a.shape(), w1b.shape()));
                backend(elementwise_mul(&one, &two))?
            }
        },
    };
    apply_scale(prod, alpha, rank)
}

/// The shape of a generalized low-rank delta: that of `w2b @ w1b`.
pub open spec fn glora_shape(w1b: Seq<usize>, w2b: Seq<usize>) -> Seq<usize> {
    seq![w2b[0], w1b[1]]
}

/// Matrices of a generalized low-rank weight that the reconstruction takes: both products
/// work, their shapes and element types agree, and the alpha scales.
pub open spec fn glora_ok(
    w1a: (Seq<usize>, DType),
    w1b: (Seq<usize>, DType),
    w2a: (Seq<usize>, DType),
    w2b: (Seq<usize>, DType),
    alpha: Seq<usize>,
) -> bool {
    &&& product_ok(w2b, w1b)
    &&& product_ok(w2a, w1a)
    &&& w2b.1 == w2a.1
    &&& seq![w2b.0[0], w1b.0[1]] == seq![w2a.0[0], w1a.0[1]]
    &&& alpha_ok(alpha, w1b.0[0])
}

/// The generalized low-rank delta `(w2b @ w1b + w2a @ w1a) * alpha / rank`, a sum of two
/// products, where the rank is the first dimension of `w1b`.
pub fn glora_delta(w1a: &Array, w1b: &Array, w2a: &Array, w2b: &Array, alpha: &Array) -> (r:
    Result<Array, InspectorError>)
    ensures
        r matches Ok(c) ==> c.model() == scale_expr(
            TensorExpr::Add(Box::new(mm(w2b.model(), w1b.model())), Box::new(mm(w2a.model(), w1a.model()))),
            alpha.model(),
            w1b.shape()[0],
            w2b.dtype(),
        ),
        r matches Err(e) ==> backend_or_shape(e),
        r matches Ok(c) ==> c.shape() == glora_shape(w1b.shape(), w2b.shape()),
        glora_ok(meta(*w1a), meta(*w1b), meta(*w2a), meta(*w2b), alpha.shape()) ==> r is Ok,
{
    let rank = rank_of(w1b)?;
    let first = product(w2b, w1b)?;
    let second = product(w2a, w1a)?;
    let sum = backend(elementwise_add(&first, &second))?;
    apply_scale(sum, alpha, rank)
}

/// `s` with trailing unit dimensions up to rank `n`.
pub open spec fn right_pad(s: Seq<usize>, n: int) -> Seq<usize> {
    if n <= s.len() {
        s
    } else {
        s + Seq::new((n - s.len()) as nat, |i: int| 1usize)
    }
}

/// The larger of two ranks.
pub open spec fn max_rank(a: Seq<usize>, b: Seq<usize>) -> int {
    if a.len() >= b.len() {
        a.len() as int
    } else {
        b.len() as int
    }
}

/// The shape of the Kronecker product: ranks equalized by trailing unit dimensions, then each
/// dimension the product of the two.
pub open spec fn kron_shape(a: Seq<usize>, b: Seq<usize>) -> Seq<usize> {
    let n = max_rank(a, b);
    Seq::new(n as nat, |i: int| (right_pad(a, n)[i] * right_pad(b, n)[i]) as usize)
}

/// `s` with a unit dimension after each of its dimensions.
pub open spec fn spread_left(s: Seq<usize>) -> Seq<usize>
    decreases s.len(),
{
    if s.len() == 0 {
        s
    } else {
        spread_left(s.drop_last()) + seq![s.last(), 1usize]
    }
}

/// `s` with a unit dimension before each of its dimensions.
pub open spec fn spread_right(s: Seq<usize>) -> Seq<usize>
    decreases s.len(),
{
    if s.len() == 0 {
        s
    } else {
        spread_right(s.drop_last()) + seq![1usize, s.last()]
    }
}

/// The dimensions of `a` and `b` taken in turn.
pub open spec fn interleave(a: Seq<usize>, b: Seq<usize>) -> Seq<usize>
    decreases a.len(),
{
    if a.len() == 0 || b.len() == 0 {
        Seq::empty()
    } else {
        interleave(a.drop_last(), b.drop_last()) + seq![a.last(), b.last()]
    }
}

/// The Kronecker product as the backend computes it: both operands, padded to one rank, are
/// spread out with unit dimensions, multiplied with broadcasting, and reshaped to the result.
pub open spec fn kron_expr(a: TensorExpr, b: TensorExpr, as_: Seq<usize>, bs: Seq<usize>) -> TensorExpr {
    let n = max_rank(as_, bs);
    reshaped(
        TensorExpr::BroadcastMul(
            Box::new(reshaped(a, spread_left(right_pad(as_, n)))),
            Box::new(reshaped(b, spread_right(right_pad(bs, n)))),
        ),
        kron_shape(as_, bs),
    )
}

/// Each product of corresponding dimensions fits in a `usize`.
pub open spec fn dims_fit(a: Seq<usize>, b: Seq<usize>) -> bool {
    forall|i: int| 0 <= i < a.len() ==> a[i] * b[i] <= usize::MAX
}

/// The sizes that the Kronecker product counts: each output dimension, both operands spread
/// out, their broadcast product, and the result.
pub open spec fn kron_fits(a: Seq<usize>, b: Seq<usize>) -> bool {
    let n = max_rank(a, b);
    &&& dims_fit(right_pad(a, n), right_pad(b, n))
    &&& shape_fits(spread_left(right_pad(a, n)))
    &&& shape_fits(spread_right(right_pad(b, n)))
    &&& shape_fits(interleave(right_pad(a, n), right_pad(b, n)))
    &&& shape_fits(kron_shape(a, b))
}

/// `d` with trailing ones up to length `n`.
fn padded_back(d: &Vec<usize>, n: usize) -> (r: Vec<usize>)
    requires
        d@.len() <= n,
    ensures
        r@ == right_pad(d@, n as int),
        prod(r@) == prod(d@),
{
    let mut r: Vec<usize> = Vec::new();
    let mut j: usize = 0;
    while j < d.len()
        invariant
            j <= d@.len(),
            r@ == d@.subrange(0, j as int),
        decreases d.len() - j,
    {
        r.push(d[j]);
        j = j + 1;
        assert(r@ =~= d@.subrange(0, j as int));
    }
    assert(d@.subrange(0, d@.len() as int) =~= d@);
    while j < n
        invariant
            d@.len() <= j <= n,
            r@ == d@ + Seq::new((j - d@.len()) as nat, |x: int| 1usize),
            prod(r@) == prod(d@),
        decreases n - j,
    {
        let ghost before = r@;
        r.push(1);
        assert(r@.drop_last() =~= before);
        assert(r@.last() == 1);
        assert(prod(r@) == prod(before) * 1);
        j = j + 1;
        assert(r@ =~= d@ + Seq::new((j - d@.len()) as nat, |x: int| 1usize));
    }
    if n <= d.len() {
        assert(r@ =~= d@);
    }
    r
}

proof fn lemma_prod_push2(s: Seq<usize>, x: usize, y: usize)
    ensures
        prod(s + seq![x, y]) == prod(s) * x * y,
{
    let t = s + seq![x, y];
    assert(t.drop_last() =~= s.push(x));
    assert(t.last() == y);
    assert(s.push(x).drop_last() =~= s);
    assert(s.push(x).last() == x);
    assert(prod(t) == prod(s.push(x)) * y);
    assert(prod(s.push(x)) == prod(s) * x);
}

/// The Kronecker product of two arrays: each element of `a` scales a full copy of `b`, the
/// copies tiled in `a`'s layout. Ranks are first equalized with trailing unit dimensions.
pub fn kron(a: &Array, b: &Array) -> (r: Result<Array, InspectorError>)
    ensures
        r matches Ok(c) ==> c.model() == kron_expr(a.model(), b.model(), a.shape(), b.shape()),
        r matches Err(e) ==> backend_or_shape(e),
        r matches Ok(c) ==> c.shape() == kron_shape(a.shape(), b.shape()) && c.dtype() == a.dtype(),
        a.dtype() == b.dtype() && kron_fits(a.shape(), b.shape()) ==> r is Ok,
{
    let ad = a.dims();
    let bd = b.dims();
    let n = if ad.len() >= bd.len() {
        ad.len()
    } else {
        bd.len()
    };
    let pa = padded_back(ad, n);
    let pb = padded_back(bd, n);
    let mut out: Vec<usize> = Vec::new();
    let mut a_exp: Vec<usize> = Vec::new();
    let mut b_exp: Vec<usize> = Vec::new();
    let mut mid: Vec<usize> = Vec::new();
    let mut i: usize = 0;
    let mut overflow = false;
    assert(pa@.subrange(0, 0) =~= Seq::<usize>::empty());
    assert(pb@.subrange(0, 0) =~= Seq::<usize>::empty());
    while i < n
        invariant
            i <= n,
            n == max_rank(a.shape(), b.shape()),
            pa@ == right_pad(a.shape(), n as int),
            pb@ == right_pad(b.shape(), n as int),
            pa@.len() == n,
            pb@.len() == n,
            a_exp@ == spread_left(pa@.subrange(0, i as int)),
            b_exp@ == spread_right(pb@.subrange(0, i as int)),
            mid@ == interleave(pa@.subrange(0, i as int), pb@.subrange(0, i as int)),
            a_exp@.len() == 2 * i,
            b_exp@.len() == 2 * i,
            mid@.len() == 2 * i,
            broadcastable(a_exp@, b_exp@),
            broadcast_shape(a_exp@, b_exp@) == mid@,
            prod(a_exp@) == prod(pa@.subrange(0, i as int)),
            prod(b_exp@) == prod(pb@.subrange(0, i as int)),
            !overflow ==> out@ == Seq::new(i as nat, |j: int| (pa@[j] * pb@[j]) as usize),
            !overflow ==> prod(mid@) == prod(out@),
            overflow ==> !dims_fit(pa@, pb@),
        decreases n - i,
    {
        let ghost (ae, be, me, oe) = (a_exp@, b_exp@, mid@, out@);
        let ghost (sa, sb) = (pa@.subrange(0, i + 1), pb@.subrange(0, i + 1));
        assert(sa.drop_last() =~= pa@.subrange(0, i as int));
        assert(sb.drop_last() =~= pb@.subrange(0, i as int));
        let x = pa[i];
        let y = pb[i];
        match x.checked_mul(y) {
            Some(v) => {
                if !overflow {
                    out.push(v);
                }
            },
            None => {
                assert(!dims_fit(pa@, pb@)) by {
                    assert(pa@[i as int] * pb@[i as int] > usize::MAX);
                }
                overflow = true;
            },
        }
        a_exp.push(x);
        a_exp.push(1);
        b_exp.push(1);
        b_exp.push(y);
        mid.push(x);
        mid.push(y);
        proof {
            assert(a_exp@ =~= ae + seq![x, 1usize]);
            assert(b_exp@ =~= be + seq![1usize, y]);
            assert(mid@ =~= me + seq![x, y]);
            lemma_prod_push2(ae, x, 1);
            lemma_prod_push2(be, 1, y);
            lemma_prod_push2(me, x, y);
            assert(sa.last() == x);
            assert(sb.last() == y);
            assert(broadcast_shape(a_exp@, b_exp@) =~= mid@);
            if !overflow {
                assert(out@ =~= oe.push((x * y) as usize));
                assert(out@.drop_last() =~= oe);
                assert(prod(mid@) == prod(out@)) by (nonlinear_arith)
                    requires
                        prod(mid@) == prod(me) * x * y,
                        prod(out@) == prod(oe) * ((x * y) as usize),
                        prod(me) == prod(oe),
                        x * y <= usize::MAX,
                        x >= 0,
                        y >= 0,
                ;
                assert(out@ =~= Seq::new((i + 1) as nat, |j: int| (pa@[j] * pb@[j]) as usize));
            }
        }
        i = i + 1;
    }
    if overflow {
        return Err(shape_error("shape too large"));
    }
    assert(pa@.subrange(0, n as int) =~= pa@);
    assert(pb@.subrange(0, n as int) =~= pb@);
    assert(out@ =~= kron_shape(a.shape(), b.shape()));
    if !fits(&a_exp) || !fits(&b_exp) || !fits(&mid) || !fits(&out) {
        return Err(shape_error("shape too large"));
    }
    let ar = backend(reshape(a, a_exp))?;
    let br = backend(reshape(b, b_exp))?;
    let m = backend(broadcast_mul(&ar, &br))?;
    let c = backend(reshape(&m, out))?;
    Ok(c)
}

/// One side of a Kronecker decomposition, as the file stores it.
pub enum Factor {
    /// The side itself.
    Dense(Array),
    /// Two factors whose product is the side: `(a, b)` with `b`'s first dimension the rank.
    LowRank(Array, Array),
    /// A Tucker core with its two factors: `(t, a, b)`.
    Tucker(Array, Array, Array),
}

/// The shape of the product of a low-rank pair: `a`'s rows, then `b`'s dimensions after its first.
pub open spec fn low_rank_shape(a: Seq<usize>, b: Seq<usize>) -> Seq<usize> {
    seq![a[0]] + b.drop_first()
}

/// The product of a low-rank pair: a matrix product when `b` is a matrix, else `b` read as a
/// matrix of its first dimension and the product given `b`'s trailing dimensions back.
pub open spec fn low_rank_expr(a: TensorExpr, b: TensorExpr, as_: Seq<usize>, bs: Seq<usize>) -> TensorExpr {
    if bs.len() == 2 {
        mm(a, b)
    } else {
        reshaped(mm(a, reshaped(b, flat_first(bs))), low_rank_shape(as_, bs))
    }
}

/// What one side holds once rebuilt.
pub open spec fn factor_expr(f: Factor) -> TensorExpr {
    match f {
        Factor::Dense(w) => w.model(),
        Factor::LowRank(a, b) => low_rank_expr(a.model(), b.model(), a.shape(), b.shape()),
        Factor::Tucker(t, a, b) => tucker_expr(t.model(), a.model(), b.model()),
    }
}

/// The shape of one side once rebuilt.
pub open spec fn factor_shape(f: Factor) -> Seq<usize> {
    match f {
        Factor::Dense(w) => w.shape(),
        Factor::LowRank(a, b) => low_rank_shape(a.shape(), b.shape()),
        Factor::Tucker(t, a, b) => tucker_shape(t.shape(), a.shape(), b.shape()),
    }
}

/// The element type of one side once rebuilt.
pub open spec fn factor_dtype(f: Factor) -> DType {
    match f {
        Factor::Dense(w) => w.dtype(),
        Factor::LowRank(a, _) => a.dtype(),
        Factor::Tucker(_, _, b) => b.dtype(),
    }
}

/// The rank that scales a factored side; none for a side stored whole.
pub open spec fn factor_rank(f: Factor) -> Option<usize> {
    match f {
        Factor::Dense(_) => None,
        Factor::LowRank(_, b) => Some(b.shape()[0]),
        Factor::Tucker(_, _, b) => Some(b.shape()[0]),
    }
}

/// A side that rebuilds: a whole array whose size fits, a pair of matrices that multiply, or
/// a core that contracts with its factors.
pub open spec fn factor_ok(f: Factor) -> bool {
    match f {
        Factor::Dense(w) => shape_fits(w.shape()),
        Factor::LowRank(a, b) => product_ok(meta(a), meta(b)),
        Factor::Tucker(t, a, b) => tucker_ok(meta(t), meta(a), meta(b)),
    }
}

/// The product of a low-rank pair `a @ b`, with `b` read as a matrix of its first dimension
/// and the result given `b`'s trailing dimensions back.
pub fn low_rank_product(a: &Array, b: &Array) -> (r: Result<Array, InspectorError>)
    ensures
        r matches Ok(c) ==> c.model() == low_rank_expr(a.model(), b.model(), a.shape(), b.shape()),
        r matches Err(e) ==> backend_or_shape(e),
        r matches Ok(c) ==> c.shape() == low_rank_shape(a.shape(), b.shape()) && c.dtype() == a.dtype(),
        product_ok(meta(*a), meta(*b)) ==> r is Ok,
{
    if b.dims().len() == 2 {
        let p = product(a, b)?;
        assert(p.shape() =~= low_rank_shape(a.shape(), b.shape()));
        return Ok(p);
    }
    let bf = flatten_keep_first(b)?;
    let p = product(a, &bf)?;
    let ad = a.dims();
    let bd = b.dims();
    let mut s: Vec<usize> = Vec::new();
    s.push(ad[0]);
    let mut i: usize = 1;
    while i < bd.len()
        invariant
            1 <= i <= bd@.len(),
            ad@.len() >= 1,
            s@ == seq![ad@[0]] + bd@.subrange(1, i as int),
        decreases bd.len() - i,
    {
        s.push(bd[i]);
        i = i + 1;
        assert(s@ =~= seq![ad@[0]] + bd@.subrange(1, i as int));
    }
    assert(bd@.subrange(1, bd@.len() as int) =~= bd@.drop_first());
    if !fits(&s) {
        return Err(shape_error("shape too large"));
    }
    let c = backend(reshape(&p, s))?;
    Ok(c)
}

/// One side rebuilt, with the rank that scales it when it was factored.
pub fn rebuild_factor(f: &Factor) -> (r: Result<(Array, Option<usize>), InspectorError>)
    ensures
        r matches Ok((c, _)) ==> c.model() == factor_expr(*f),
        r matches Err(e) ==> backend_or_shape(e),
        r matches Ok((c, rank)) ==> c.shape() == factor_shape(*f) && c.dtype() == factor_dtype(*f)
            && rank == factor_rank(*f),
        factor_ok(*f) ==> r is Ok,
{
    match f {
        Factor::Dense(w) => Ok((copy_array(w), None)),
        Factor::LowRank(a, b) => {
            let rank = rank_of(b)?;
            let c = low_rank_product(a, b)?;
            Ok((c, Some(rank)))
        },
        Factor::Tucker(t, a, b) => {
            let rank = rank_of(b)?;
            let c = rebuild_tucker(t, a, b)?;
            Ok((c, Some(rank)))
        },
    }
}

/// The shape of a Kronecker-decomposition delta: the Kronecker shape of its sides.
pub open spec fn lokr_shape(s1: Seq<usize>, s2: Seq<usize>) -> Seq<usize> {
    kron_shape(s1, s2)
}

/// The alpha that a Kronecker decomposition needs: none when both sides are whole, else a
/// scalar with the first factored side's rank within reach of the backend.
pub open spec fn lokr_scale_ok(w1: Factor, w2: Factor, alpha: Option<&Array>) -> bool {
    match factor_rank(w1) {
        Some(k) => alpha is Some && scale_ok(alpha, k),
        None => match factor_rank(w2) {
            Some(k) => alpha is Some && scale_ok(alpha, k),
            None => true,
        },
    }
}

/// The Kronecker-decomposition delta `kron(w1, w2) * alpha / rank`. The rank is that of the
/// first factored side; when both sides are stored whole there is no scaling and no alpha is
/// read.
pub fn lokr_delta(w1: &Factor, w2: &Factor, alpha: Option<&Array>) -> (r: Result<Array, InspectorError>)
    ensures
        r matches Ok(c) ==> c.model() == match (factor_rank(*w1), factor_rank(*w2)) {
            (None, None) => kron_expr(factor_expr(*w1), factor_expr(*w2), factor_shape(*w1), factor_shape(*w2)),
            (Some(k), _) => scale_expr(
                kron_expr(factor_expr(*w1), factor_expr(*w2), factor_shape(*w1), factor_shape(*w2)),
                alpha->0.model(),
                k,
                factor_dtype(*w1),
            ),
            (None, Some(k)) => scale_expr(
                kron_expr(factor_expr(*w1), factor_expr(*w2), factor_shape(*w1), factor_shape(*w2)),
                alpha->0.model(),
                k,
                factor_dtype(*w1),
            ),
        },
        r matches Err(e) ==> backend_or_shape(e) || (e is NotFound && alpha is None && (w1 !is Dense
            || w2 !is Dense)),
        r matches Ok(c) ==> c.shape() == lokr_shape(factor_shape(*w1), factor_shape(*w2)),
        (w1 !is Dense || w2 !is Dense) && alpha is None ==> r is Err,
        factor_ok(*w1) && factor_ok(*w2) && factor_dtype(*w1) == factor_dtype(*w2) && kron_fits(
            factor_shape(*w1),
            factor_shape(*w2),
        ) && lokr_scale_ok(*w1, *w2, alpha) ==> r is Ok,
{
    let (a, rank1) = rebuild_factor(w1)?;
    let (b, rank2) = rebuild_factor(w2)?;
    let rank = match rank1 {
        Some(k) => Some(k),
        None => rank2,
    };
    let k = kron(&a, &b)?;
    match rank {
        None => Ok(k),
        Some(rk) => match alpha {
            Some(al) => maybe_scale(k, Some(al), rk),
            None => Err(InspectorError::NotFound),
        },
    }
}

/// Kronecker shape law: matrices of shapes `(p, q)` and `(r, s)` give `(p * r, q * s)`, and a
/// matrix `(p, q)` against `(r, s, 1, 1)`, padded with trailing unit dimensions, gives
/// `(p * r, q * s, 1, 1)`.
pub proof fn lemma_kron_shape_law(p: usize, q: usize, r: usize, s: usize)
    requires
        p * r <= usize::MAX,
        q * s <= usize::MAX,
    ensures
        kron_shape(seq![p, q], seq![r, s]) == seq![(p * r) as usize, (q * s) as usize],
        kron_shape(seq![p, q], seq![r, s, 1usize, 1usize]) == seq![(p * r) as usize, (q * s) as usize, 1usize, 1usize],
{
    let a = seq![p, q];
    let b = seq![r, s];
    assert(right_pad(a, 2) =~= a);
    assert(right_pad(b, 2) =~= b);
    assert(kron_shape(a, b) =~= seq![(p * r) as usize, (q * s) as usize]);
    let b4 = seq![r, s, 1usize, 1usize];
    let a4 = right_pad(a, 4);
    assert(a4 =~= seq![p, q, 1usize, 1usize]);
    assert(right_pad(b4, 4) =~= b4);
    assert(max_rank(a, b4) == 4);
    let k = kron_shape(a, b4);
    assert(k.len() == 4);
    assert(k[0] == (a4[0] * b4[0]) as usize);
    assert(k[1] == (a4[1] * b4[1]) as usize);
    assert(k[2] == (a4[2] * b4[2]) as usize);
    assert(k[3] == (a4[3] * b4[3]) as usize);
    assert(k =~= seq![(p * r) as usize, (q * s) as usize, 1usize, 1usize]);
}

} // verus!
