//! The host reference for the batched linear forward pass, computed exactly
//! over integer-valued buffers.
//!
//! Elements are `i32`; every output is accumulated in `i128`, which no
//! workload that fits in memory can overflow, so the result is the
//! mathematical sum and does not depend on rounding.

use vstd::prelude::*;
use crate::error::HarnessError;
use crate::shape::{lemma_compose_index, lemma_row_span, lemma_split_index, WorkloadShape};

verus! {

/// Sum of the first `n` products `inp[inp_base + i] * weight[weight_base + i]`,
/// taken left to right.
pub open spec fn dot(inp: Seq<i32>, inp_base: int, weight: Seq<i32>, weight_base: int, n: nat)
    -> int
    decreases n,
{
    if n == 0 {
        0
    } else {
        dot(inp, inp_base, weight, weight_base, (n - 1) as nat) + inp[inp_base + n - 1]
            * weight[weight_base + n - 1]
    }
}

/// The bias added to output channel `o`: zero where no bias is passed.
pub open spec fn bias_term(bias: Seq<i32>, o: int) -> int {
    if bias.len() == 0 {
        0
    } else {
        bias[o] as int
    }
}

/// Output element `(b, t, o)`: `bias[o] + sum over i of inp[b,t,i] * weight[o,i]`.
pub open spec fn linear_output(
    shape: WorkloadShape,
    inp: Seq<i32>,
    weight: Seq<i32>,
    bias: Seq<i32>,
    b: int,
    t: int,
    o: int,
) -> int {
    bias_term(bias, o) + dot(
        inp,
        shape.spec_input_index(b, t, 0),
        weight,
        shape.spec_weight_index(o, 0),
        shape.channels() as nat,
    )
}

/// Whether `(b, t, o)` names an output element of the shape.
pub open spec fn output_in_range(shape: WorkloadShape, b: int, t: int, o: int) -> bool {
    shape.row_in_range(b, t) && 0 <= o < shape.out_channels()
}

/// `out` holds the linear forward pass of the workload: every element, at
/// its flat position, is the reference value.
pub open spec fn is_linear_forward(
    shape: WorkloadShape,
    out: Seq<i128>,
    inp: Seq<i32>,
    weight: Seq<i32>,
    bias: Seq<i32>,
) -> bool {
    &&& out.len() == shape.spec_output_len()
    &&& forall|b: int, t: int, o: int|
        output_in_range(shape, b, t, o) ==> #[trigger] out[shape.spec_output_index(b, t, o)]
            == linear_output(shape, inp, weight, bias, b, t, o)
}

/// The reference value at a flat output position.
pub open spec fn linear_output_flat(
    shape: WorkloadShape,
    inp: Seq<i32>,
    weight: Seq<i32>,
    bias: Seq<i32>,
    index: int,
) -> int {
    let row = index / (shape.out_channels() as int);
    linear_output(
        shape,
        inp,
        weight,
        bias,
        row / (shape.seq_len() as int),
        row % (shape.seq_len() as int),
        index % (shape.out_channels() as int),
    )
}

/// The product of two `i32` values lies within `2^62` of zero.
pub proof fn lemma_product_bound(x: int, w: int)
    requires
        -0x8000_0000 <= x <= 0x7fff_ffff,
        -0x8000_0000 <= w <= 0x7fff_ffff,
    ensures
        -0x4000_0000_0000_0000 <= x * w <= 0x4000_0000_0000_0000,
{
    assert((x + 0x8000_0000) * (w + 0x8000_0000) >= 0) by (nonlinear_arith)
        requires
            x + 0x8000_0000 >= 0,
            w + 0x8000_0000 >= 0,
    ;
    assert((0x8000_0000 - x) * (0x8000_0000 - w) >= 0) by (nonlinear_arith)
        requires
            0x8000_0000 - x >= 0,
            0x8000_0000 - w >= 0,
    ;
    assert((x + 0x8000_0000) * (0x8000_0000 - w) >= 0) by (nonlinear_arith)
        requires
            x + 0x8000_0000 >= 0,
            0x8000_0000 - w >= 0,
    ;
    assert((0x8000_0000 - x) * (w + 0x8000_0000) >= 0) by (nonlinear_arith)
        requires
            0x8000_0000 - x >= 0,
            w + 0x8000_0000 >= 0,
    ;
    assert((x + 0x8000_0000) * (w + 0x8000_0000) == x * w + 0x8000_0000 * x + 0x8000_0000 * w
        + 0x4000_0000_0000_0000) by (nonlinear_arith);
    assert((0x8000_0000 - x) * (0x8000_0000 - w) == x * w - 0x8000_0000 * x - 0x8000_0000 * w
        + 0x4000_0000_0000_0000) by (nonlinear_arith);
    assert((x + 0x8000_0000) * (0x8000_0000 - w) == 0x8000_0000 * x - x * w - 0x8000_0000 * w
        + 0x4000_0000_0000_0000) by (nonlinear_arith);
    assert((0x8000_0000 - x) * (w + 0x8000_0000) == 0x8000_0000 * w - x * w - 0x8000_0000 * x
        + 0x4000_0000_0000_0000) by (nonlinear_arith);
}

/// A sum of `n` products of `i32` values lies within `n * 2^62` of zero.
pub proof fn lemma_dot_bound(
    inp: Seq<i32>,
    inp_base: int,
    weight: Seq<i32>,
    weight_base: int,
    n: nat,
)
    requires
        0 <= inp_base,
        inp_base + n <= inp.len(),
        0 <= weight_base,
        weight_base + n <= weight.len(),
    ensures
        -(n * 0x4000_0000_0000_0000) <= dot(inp, inp_base, weight, weight_base, n) <= n
            * 0x4000_0000_0000_0000,
    decreases n,
{
    if n > 0 {
        lemma_dot_bound(inp, inp_base, weight, weight_base, (n - 1) as nat);
        lemma_product_bound(inp[inp_base + n - 1] as int, weight[weight_base + n - 1] as int);
    }
}

/// `start` plus the dot product of `n` elements of `inp` from `inp_base` with
/// `n` elements of `weight` from `weight_base`.
fn accumulate_row(
    inp: &[i32],
    inp_base: usize,
    weight: &[i32],
    weight_base: usize,
    n: usize,
    start: i32,
) -> (r: i128)
    requires
        inp_base + n <= inp@.len(),
        weight_base + n <= weight@.len(),
    ensures
        r == start + dot(inp@, inp_base as int, weight@, weight_base as int, n as nat),
{
    let inp_len = inp.len();
    let weight_len = weight.len();
    let mut val: i128 = start as i128;
    let mut i: usize = 0;
    while i < n
        invariant
            i <= n,
            inp_len == inp@.len(),
            weight_len == weight@.len(),
            inp_base + n <= inp@.len(),
            weight_base + n <= weight@.len(),
            val == start + dot(inp@, inp_base as int, weight@, weight_base as int, i as nat),
        decreases n - i,
    {
        proof {
            lemma_dot_bound(inp@, inp_base as int, weight@, weight_base as int, i as nat);
            lemma_product_bound(inp@[inp_base + i] as int, weight@[weight_base + i] as int);
        }
        let x: i64 = inp[inp_base + i] as i64;
        let w: i64 = weight[weight_base + i] as i64;
        val = val + (x * w) as i128;
        i = i + 1;
    }
    val
}

/// Computes one output element of the reference.
///
/// The read-only buffers are held against the shape first; then the
/// coordinates are held against its ranges.
pub fn linear_forward_element(
    inp: &[i32],
    weight: &[i32],
    bias: &[i32],
    shape: &WorkloadShape,
    b: usize,
    t: usize,
    o: usize,
) -> (r: Result<i128, HarnessError>)
    ensures
        r == spec_linear_forward_element(*shape, inp@, weight@, bias@, b as int, t as int, o as int),
{
    match shape.check_inputs(inp.len(), weight.len(), bias.len()) {
        Err(e) => Err(e),
        Ok(()) => {
            if b >= shape.batch() || t >= shape.seq_len() || o >= shape.out_channels() {
                return Err(HarnessError::OutOfRange);
            }
            let start: i32 = if bias.len() > 0 {
                bias[o]
            } else {
                0
            };
            let inp_bt = shape.input_offset(b, t);
            let wrow = shape.weight_offset(o);
            let val = accumulate_row(inp, inp_bt, weight, wrow, shape.channels(), start);
            Ok(val)
        },
    }
}

/// The first `count` flat positions of `out` hold their reference values.
pub open spec fn filled_to(
    shape: WorkloadShape,
    out: Seq<i128>,
    inp: Seq<i32>,
    weight: Seq<i32>,
    bias: Seq<i32>,
    count: int,
) -> bool {
    forall|index: int|
        0 <= index < count ==> #[trigger] out[index] == linear_output_flat(
            shape,
            inp,
            weight,
            bias,
            index,
        )
}

/// A buffer filled position by position holds the linear forward pass.
pub proof fn lemma_filled_is_forward(
    shape: WorkloadShape,
    out: Seq<i128>,
    inp: Seq<i32>,
    weight: Seq<i32>,
    bias: Seq<i32>,
)
    requires
        shape.wf(),
        out.len() == shape.spec_output_len(),
        filled_to(shape, out, inp, weight, bias, out.len() as int),
    ensures
        is_linear_forward(shape, out, inp, weight, bias),
{
    assert forall|b: int, t: int, o: int| output_in_range(shape, b, t, o) implies #[trigger] out[shape.spec_output_index(
        b,
        t,
        o,
    )] == linear_output(shape, inp, weight, bias, b, t, o) by {
        lemma_compose_index(shape.seq_len() as int, shape.out_channels() as int, b, t, o);
        lemma_row_span(
            shape.batch() as int,
            shape.seq_len() as int,
            shape.out_channels() as int,
            b,
            t,
        );
    }
}

/// Fills `out` with the linear forward pass of the workload:
/// `out[b,t,o] = bias[o] + sum over i of inp[b,t,i] * weight[o,i]`, with an
/// empty `bias` standing for no bias.
///
/// A buffer whose length disagrees with the shape is reported, input first,
/// then weight, bias and output, and `out` is left as it was.
pub fn linear_forward(
    out: &mut Vec<i128>,
    inp: &[i32],
    weight: &[i32],
    bias: &[i32],
    shape: &WorkloadShape,
) -> (r: Result<(), HarnessError>)
    ensures
        r == shape.spec_check_buffers(
            old(out)@.len() as int,
            inp@.len() as int,
            weight@.len() as int,
            bias@.len() as int,
        ),
        r is Err ==> final(out)@ == old(out)@,
        r is Ok ==> is_linear_forward(*shape, final(out)@, inp@, weight@, bias@),
        r is Ok ==> final(out)@ == reference_outputs(*shape, inp@, weight@, bias@),
{
    match shape.check_buffers(out.len(), inp.len(), weight.len(), bias.len()) {
        Err(e) => { return Err(e); },
        Ok(()) => {},
    }
    let big_b = shape.batch();
    let big_t = shape.seq_len();
    let big_c = shape.channels();
    let big_oc = shape.out_channels();
    let mut b: usize = 0;
    while b < big_b
        invariant
            shape.wf(),
            big_b == shape.batch(),
            big_t == shape.seq_len(),
            big_c == shape.channels(),
            big_oc == shape.out_channels(),
            b <= big_b,
            out@.len() == shape.spec_output_len(),
            shape.spec_check_inputs(inp@.len() as int, weight@.len() as int, bias@.len() as int)
                is Ok,
            filled_to(*shape, out@, inp@, weight@, bias@, b * big_t * big_oc),
        decreases big_b - b,
    {
        let mut t: usize = 0;
        while t < big_t
            invariant
                shape.wf(),
                big_b == shape.batch(),
                big_t == shape.seq_len(),
                big_c == shape.channels(),
                big_oc == shape.out_channels(),
                b < big_b,
                t <= big_t,
                out@.len() == shape.spec_output_len(),
                shape.spec_check_inputs(
                    inp@.len() as int,
                    weight@.len() as int,
                    bias@.len() as int,
                ) is Ok,
                filled_to(*shape, out@, inp@, weight@, bias@, b * big_t * big_oc + t * big_oc),
            decreases big_t - t,
        {
            let out_bt = shape.output_offset(b, t);
            let inp_bt = shape.input_offset(b, t);
            let mut o: usize = 0;
            while o < big_oc
                invariant
                    shape.wf(),
                    big_b == shape.batch(),
                    big_t == shape.seq_len(),
                    big_c == shape.channels(),
                    big_oc == shape.out_channels(),
                    b < big_b,
                    t < big_t,
                    o <= big_oc,
                    out_bt == shape.spec_output_index(b as int, t as int, 0),
                    out_bt + big_oc <= shape.spec_output_len(),
                    inp_bt == shape.spec_input_index(b as int, t as int, 0),
                    inp_bt + big_c <= shape.spec_input_len(),
                    out@.len() == shape.spec_output_len(),
                    shape.spec_check_inputs(
                        inp@.len() as int,
                        weight@.len() as int,
                        bias@.len() as int,
                    ) is Ok,
                    filled_to(*shape, out@, inp@, weight@, bias@, out_bt + o),
                decreases big_oc - o,
            {
                let start: i32 = if bias.len() > 0 {
                    bias[o]
                } else {
                    0
                };
                let wrow = shape.weight_offset(o);
                let val = accumulate_row(inp, inp_bt, weight, wrow, big_c, start);
                proof {
                    lemma_compose_index(big_t as int, big_oc as int, b as int, t as int, o as int);
                }
                out[out_bt + o] = val;
                o = o + 1;
            }
            proof {
                assert(b * big_t * big_oc + t * big_oc + big_oc == b * big_t * big_oc + (t + 1)
                    * big_oc) by (nonlinear_arith);
            }
            t = t + 1;
        }
        proof {
            assert(b * big_t * big_oc + big_t * big_oc == (b + 1) * big_t * big_oc)
                by (nonlinear_arith);
        }
        b = b + 1;
    }
    proof {
        lemma_filled_is_forward(*shape, out@, inp@, weight@, bias@);
        lemma_forward_is_reference(*shape, out@, inp@, weight@, bias@);
    }
    Ok(())
}

/// Two buffers that both hold the forward pass of one workload are equal.
pub proof fn lemma_forward_unique(
    shape: WorkloadShape,
    first: Seq<i128>,
    second: Seq<i128>,
    inp: Seq<i32>,
    weight: Seq<i32>,
    bias: Seq<i32>,
)
    requires
        shape.wf(),
        is_linear_forward(shape, first, inp, weight, bias),
        is_linear_forward(shape, second, inp, weight, bias),
    ensures
        first == second,
{
    assert forall|index: int| 0 <= index < first.len() implies first[index] == second[index] by {
        lemma_split_index(
            shape.batch() as int,
            shape.seq_len() as int,
            shape.out_channels() as int,
            index,
        );
        let row = index / (shape.out_channels() as int);
        let b = row / (shape.seq_len() as int);
        let t = row % (shape.seq_len() as int);
        let o = index % (shape.out_channels() as int);
        assert(output_in_range(shape, b, t, o));
        assert(shape.spec_output_index(b, t, o) == index);
    }
    assert(first =~= second);
}

/// An empty bias buffer gives every output element the value that a bias
/// buffer of zeros gives it.
pub proof fn lemma_empty_bias_is_zero_bias(
    shape: WorkloadShape,
    inp: Seq<i32>,
    weight: Seq<i32>,
    zeros: Seq<i32>,
    b: int,
    t: int,
    o: int,
)
    requires
        shape.wf(),
        output_in_range(shape, b, t, o),
        zeros.len() == shape.spec_bias_len(),
        forall|k: int| 0 <= k < zeros.len() ==> zeros[k] == 0,
    ensures
        linear_output(shape, inp, weight, Seq::<i32>::empty(), b, t, o) == linear_output(
            shape,
            inp,
            weight,
            zeros,
            b,
            t,
            o,
        ),
{
}

/// The forward pass computed without a bias buffer and the one computed with
/// a bias buffer of zeros are the same buffer.
pub proof fn lemma_forward_without_bias(
    shape: WorkloadShape,
    without: Seq<i128>,
    with_zeros: Seq<i128>,
    inp: Seq<i32>,
    weight: Seq<i32>,
    zeros: Seq<i32>,
)
    requires
        shape.wf(),
        zeros.len() == shape.spec_bias_len(),
        forall|k: int| 0 <= k < zeros.len() ==> zeros[k] == 0,
        is_linear_forward(shape, without, inp, weight, Seq::<i32>::empty()),
        is_linear_forward(shape, with_zeros, inp, weight, zeros),
    ensures
        without == with_zeros,
{
    assert forall|b: int, t: int, o: int| output_in_range(shape, b, t, o) implies #[trigger] without[shape.spec_output_index(
        b,
        t,
        o,
    )] == linear_output(shape, inp, weight, zeros, b, t, o) by {
        lemma_empty_bias_is_zero_bias(shape, inp, weight, zeros, b, t, o);
    }
    lemma_forward_unique(shape, without, with_zeros, inp, weight, zeros);
}

/// Over buffers that hold one value each, the sum of `n` products is `n`
/// times the product of the two values.
pub proof fn lemma_dot_constant(
    inp: Seq<i32>,
    inp_base: int,
    weight: Seq<i32>,
    weight_base: int,
    n: nat,
    x: i32,
    w: i32,
)
    requires
        0 <= inp_base,
        inp_base + n <= inp.len(),
        0 <= weight_base,
        weight_base + n <= weight.len(),
        forall|k: int| 0 <= k < inp.len() ==> inp[k] == x,
        forall|k: int| 0 <= k < weight.len() ==> weight[k] == w,
    ensures
        dot(inp, inp_base, weight, weight_base, n) == n * (x * w),
    decreases n,
{
    if n > 0 {
        lemma_dot_constant(inp, inp_base, weight, weight_base, (n - 1) as nat, x, w);
        assert(inp[inp_base + n - 1] == x);
        assert(weight[weight_base + n - 1] == w);
        assert((n - 1) * (x * w) + x * w == n * (x * w)) by (nonlinear_arith);
    } else {
        assert(n * (x * w) == 0) by (nonlinear_arith)
            requires
                n == 0,
        ;
    }
}

/// With the input filled with `x`, the weight with `w` and the bias with `c`,
/// every output element is `c + C * x * w`.
pub proof fn lemma_constant_workload(
    shape: WorkloadShape,
    inp: Seq<i32>,
    weight: Seq<i32>,
    bias: Seq<i32>,
    x: i32,
    w: i32,
    c: i32,
    b: int,
    t: int,
    o: int,
)
    requires
        shape.wf(),
        output_in_range(shape, b, t, o),
        inp.len() == shape.spec_input_len(),
        weight.len() == shape.spec_weight_len(),
        bias.len() == shape.spec_bias_len(),
        forall|k: int| 0 <= k < inp.len() ==> inp[k] == x,
        forall|k: int| 0 <= k < weight.len() ==> weight[k] == w,
        forall|k: int| 0 <= k < bias.len() ==> bias[k] == c,
    ensures
        linear_output(shape, inp, weight, bias, b, t, o) == c + shape.channels() * (x * w),
{
    lemma_row_span(shape.batch() as int, shape.seq_len() as int, shape.channels() as int, b, t);
    lemma_row_span(1, shape.out_channels() as int, shape.channels() as int, 0, o);
    lemma_dot_constant(
        inp,
        shape.spec_input_index(b, t, 0),
        weight,
        shape.spec_weight_index(o, 0),
        shape.channels() as nat,
        x,
        w,
    );
}

/// The forward pass of a workload as one buffer.
pub open spec fn reference_outputs(
    shape: WorkloadShape,
    inp: Seq<i32>,
    weight: Seq<i32>,
    bias: Seq<i32>,
) -> Seq<i128> {
    Seq::new(
        shape.spec_output_len() as nat,
        |index: int| linear_output_flat(shape, inp, weight, bias, index) as i128,
    )
}

/// A buffer that holds the forward pass is the reference buffer.
pub proof fn lemma_forward_is_reference(
    shape: WorkloadShape,
    out: Seq<i128>,
    inp: Seq<i32>,
    weight: Seq<i32>,
    bias: Seq<i32>,
)
    requires
        shape.wf(),
        is_linear_forward(shape, out, inp, weight, bias),
    ensures
        out == reference_outputs(shape, inp, weight, bias),
{
    let expected = reference_outputs(shape, inp, weight, bias);
    assert forall|index: int| 0 <= index < out.len() implies out[index] == expected[index] by {
        lemma_split_index(
            shape.batch() as int,
            shape.seq_len() as int,
            shape.out_channels() as int,
            index,
        );
        let row = index / (shape.out_channels() as int);
        let b = row / (shape.seq_len() as int);
        let t = row % (shape.seq_len() as int);
        let o = index % (shape.out_channels() as int);
        assert(output_in_range(shape, b, t, o));
        assert(shape.spec_output_index(b, t, o) == index);
    }
    assert(out =~= expected);
}

/// Every element of the reference buffer is the value of the formula: no
/// workload that fits the shape takes a sum out of the range of `i128`.
pub proof fn lemma_reference_values(
    shape: WorkloadShape,
    inp: Seq<i32>,
    weight: Seq<i32>,
    bias: Seq<i32>,
)
    requires
        shape.wf(),
        shape.spec_check_inputs(inp.len() as int, weight.len() as int, bias.len() as int) is Ok,
    ensures
        is_linear_forward(shape, reference_outputs(shape, inp, weight, bias), inp, weight, bias),
{
    let out = reference_outputs(shape, inp, weight, bias);
    assert forall|b: int, t: int, o: int| output_in_range(shape, b, t, o) implies #[trigger] out[shape.spec_output_index(
        b,
        t,
        o,
    )] == linear_output(shape, inp, weight, bias, b, t, o) by {
        lemma_compose_index(shape.seq_len() as int, shape.out_channels() as int, b, t, o);
        lemma_row_span(
            shape.batch() as int,
            shape.seq_len() as int,
            shape.out_channels() as int,
            b,
            t,
        );
        lemma_row_span(shape.batch() as int, shape.seq_len() as int, shape.channels() as int, b, t);
        lemma_row_span(1, shape.out_channels() as int, shape.channels() as int, 0, o);
        lemma_dot_bound(
            inp,
            shape.spec_input_index(b, t, 0),
            weight,
            shape.spec_weight_index(o, 0),
            shape.channels() as nat,
        );
        assert(shape.channels() * 0x4000_0000_0000_0000 <= usize::MAX * 0x4000_0000_0000_0000)
            by (nonlinear_arith)
            requires
                shape.channels() <= usize::MAX,
        ;
    }
}

/// What `compute_reference` returns: the reference buffer, unless a
/// read-only buffer disagrees with the shape.
pub open spec fn spec_compute_reference(
    shape: WorkloadShape,
    inp: Seq<i32>,
    weight: Seq<i32>,
    bias: Seq<i32>,
) -> Result<Seq<i128>, HarnessError> {
    match shape.spec_check_inputs(inp.len() as int, weight.len() as int, bias.len() as int) {
        Err(e) => Err(e),
        Ok(_) => Ok(reference_outputs(shape, inp, weight, bias)),
    }
}

/// Allocates the output buffer of a workload and fills it with the forward
/// pass.
pub fn compute_reference(inp: &[i32], weight: &[i32], bias: &[i32], shape: &WorkloadShape) -> (r:
    Result<Vec<i128>, HarnessError>)
    ensures
        r is Ok <==> spec_compute_reference(*shape, inp@, weight@, bias@) is Ok,
        r is Ok ==> r->Ok_0@ == spec_compute_reference(*shape, inp@, weight@, bias@)->Ok_0,
        r is Ok ==> is_linear_forward(*shape, r->Ok_0@, inp@, weight@, bias@),
        r is Err ==> r->Err_0 == spec_compute_reference(*shape, inp@, weight@, bias@)->Err_0,
{
    match shape.check_inputs(inp.len(), weight.len(), bias.len()) {
        Err(e) => { return Err(e); },
        Ok(()) => {},
    }
    let mut out: Vec<i128> = vec![0i128; shape.output_len()];
    match linear_forward(&mut out, inp, weight, bias, shape) {
        Err(e) => Err(e),
        Ok(()) => Ok(out),
    }
}

/// What `linear_forward_element` returns.
pub open spec fn spec_linear_forward_element(
    shape: WorkloadShape,
    inp: Seq<i32>,
    weight: Seq<i32>,
    bias: Seq<i32>,
    b: int,
    t: int,
    o: int,
) -> Result<i128, HarnessError> {
    match shape.spec_check_inputs(inp.len() as int, weight.len() as int, bias.len() as int) {
        Err(e) => Err(e),
        Ok(_) => if output_in_range(shape, b, t, o) {
            Ok(linear_output(shape, inp, weight, bias, b, t, o) as i128)
        } else {
            Err(HarnessError::OutOfRange)
        },
    }
}

} // verus!
