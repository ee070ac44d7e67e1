//! Workload shapes and the flat layout of the buffers they imply.

use vstd::prelude::*;
use crate::error::{Buffer, HarnessError};

verus! {

/// Dimensions `(B, T, C, OC)` of one linear-forward workload. Every value of
/// this type has positive dimensions and buffer lengths that fit in `usize`.
#[derive(Clone, Copy, Debug, PartialEq, Eq, Structural)]
pub struct WorkloadShape {
    batch: usize,
    seq_len: usize,
    channels: usize,
    out_channels: usize,
}

/// Every dimension is at least one.
pub open spec fn dims_positive(batch: usize, seq_len: usize, channels: usize, out_channels: usize)
    -> bool {
    batch >= 1 && seq_len >= 1 && channels >= 1 && out_channels >= 1
}

/// The input, weight and output lengths all fit in `usize`.
pub open spec fn dims_addressable(
    batch: usize,
    seq_len: usize,
    channels: usize,
    out_channels: usize,
) -> bool {
    &&& batch * seq_len * channels <= usize::MAX
    &&& out_channels * channels <= usize::MAX
    &&& batch * seq_len * out_channels <= usize::MAX
}

impl WorkloadShape {
    /// Batch count `B`.
    pub closed spec fn spec_batch(&self) -> usize {
        self.batch
    }

    /// Sequence length `T`.
    pub closed spec fn spec_seq_len(&self) -> usize {
        self.seq_len
    }

    /// Input channels `C`.
    pub closed spec fn spec_channels(&self) -> usize {
        self.channels
    }

    /// Output channels `OC`.
    pub closed spec fn spec_out_channels(&self) -> usize {
        self.out_channels
    }

    /// The invariant of the type: every shape is well formed.
    #[verifier::type_invariant]
    pub open spec fn inv(self) -> bool {
        self.wf()
    }

    /// Batch count `B`.
    #[verifier::when_used_as_spec(spec_batch)]
    pub fn batch(&self) -> (r: usize)
        ensures
            r == self.spec_batch(),
            self.wf(),
    {
        proof {
            use_type_invariant(self);
        }
        self.batch
    }

    /// Sequence length `T`.
    #[verifier::when_used_as_spec(spec_seq_len)]
    pub fn seq_len(&self) -> (r: usize)
        ensures
            r == self.spec_seq_len(),
            self.wf(),
    {
        proof {
            use_type_invariant(self);
        }
        self.seq_len
    }

    /// Input channels `C`.
    #[verifier::when_used_as_spec(spec_channels)]
    pub fn channels(&self) -> (r: usize)
        ensures
            r == self.spec_channels(),
            self.wf(),
    {
        proof {
            use_type_invariant(self);
        }
        self.channels
    }

    /// Output channels `OC`.
    #[verifier::when_used_as_spec(spec_out_channels)]
    pub fn out_channels(&self) -> (r: usize)
        ensures
            r == self.spec_out_channels(),
            self.wf(),
    {
        proof {
            use_type_invariant(self);
        }
        self.out_channels
    }

    /// Length of the input buffer, `B * T * C`.
    pub open spec fn spec_input_len(self) -> int {
        self.batch() * self.seq_len() * self.channels()
    }

    /// Length of the weight buffer, `OC * C`.
    pub open spec fn spec_weight_len(self) -> int {
        self.out_channels() * self.channels()
    }

    /// Length of a present bias buffer, `OC`.
    pub open spec fn spec_bias_len(self) -> int {
        self.out_channels() as int
    }

    /// Length of the output buffer, `B * T * OC`.
    pub open spec fn spec_output_len(self) -> int {
        self.batch() * self.seq_len() * self.out_channels()
    }

    /// What holds of every shape in executable code: positive dimensions and
    /// buffer lengths within `usize`.
    pub open spec fn wf(self) -> bool {
        &&& dims_positive(self.batch(), self.seq_len(), self.channels(), self.out_channels())
        &&& dims_addressable(self.batch(), self.seq_len(), self.channels(), self.out_channels())
    }

    /// Builds a shape. A zero dimension is rejected first, then buffer
    /// lengths beyond `usize`.
    pub fn new(batch: usize, seq_len: usize, channels: usize, out_channels: usize) -> (r: Result<
        WorkloadShape,
        HarnessError,
    >)
        ensures
            !dims_positive(batch, seq_len, channels, out_channels) ==> r == Err::<
                WorkloadShape,
                HarnessError,
            >(HarnessError::EmptyDimension),
            dims_positive(batch, seq_len, channels, out_channels) && !dims_addressable(
                batch,
                seq_len,
                channels,
                out_channels,
            ) ==> r == Err::<WorkloadShape, HarnessError>(HarnessError::SizeOverflow),
            dims_positive(batch, seq_len, channels, out_channels) && dims_addressable(
                batch,
                seq_len,
                channels,
                out_channels,
            ) ==> r is Ok,
            r is Ok ==> {
                let shape = r->Ok_0;
                &&& shape.wf()
                &&& shape.batch() == batch
                &&& shape.seq_len() == seq_len
                &&& shape.channels() == channels
                &&& shape.out_channels() == out_channels
            },
    {
        if batch == 0 || seq_len == 0 || channels == 0 || out_channels == 0 {
            return Err(HarnessError::EmptyDimension);
        }
        proof {
            lemma_rows_bounded(batch as int, seq_len as int, channels as int);
            lemma_rows_bounded(batch as int, seq_len as int, out_channels as int);
        }
        let rows = match batch.checked_mul(seq_len) {
            Some(rows) => rows,
            None => { return Err(HarnessError::SizeOverflow); },
        };
        if rows.checked_mul(channels).is_none() {
            return Err(HarnessError::SizeOverflow);
        }
        if rows.checked_mul(out_channels).is_none() {
            return Err(HarnessError::SizeOverflow);
        }
        if out_channels.checked_mul(channels).is_none() {
            return Err(HarnessError::SizeOverflow);
        }
        Ok(WorkloadShape { batch, seq_len, channels, out_channels })
    }

    /// Length of the input buffer.
    pub fn input_len(&self) -> (n: usize)
        ensures
            n == self.spec_input_len(),
            self.wf(),
    {
        proof {
            use_type_invariant(self);
            lemma_rows_bounded(self.batch() as int, self.seq_len() as int, self.channels() as int);
        }
        self.batch() * self.seq_len() * self.channels()
    }

    /// Length of the weight buffer.
    pub fn weight_len(&self) -> (n: usize)
        ensures
            n == self.spec_weight_len(),
            self.wf(),
    {
        self.out_channels() * self.channels()
    }

    /// Length of a bias buffer that is present.
    pub fn bias_len(&self) -> (n: usize)
        ensures
            n == self.spec_bias_len(),
    {
        self.out_channels()
    }

    /// Length of the output buffer.
    pub fn output_len(&self) -> (n: usize)
        ensures
            n == self.spec_output_len(),
            self.wf(),
    {
        proof {
            use_type_invariant(self);
            lemma_rows_bounded(self.batch() as int, self.seq_len() as int, self.out_channels() as int);
        }
        self.batch() * self.seq_len() * self.out_channels()
    }

    /// Whether a bias buffer of this length is acceptable: absent or `OC` long.
    pub open spec fn bias_fits(self, bias_len: int) -> bool {
        bias_len == 0 || bias_len == self.spec_bias_len()
    }

    /// The first of the read-only buffers, in the order input, weight, bias,
    /// whose length disagrees with the shape.
    pub open spec fn spec_check_inputs(self, inp_len: int, weight_len: int, bias_len: int)
        -> Result<(), HarnessError> {
        if inp_len != self.spec_input_len() {
            Err(HarnessError::LengthMismatch(Buffer::Input))
        } else if weight_len != self.spec_weight_len() {
            Err(HarnessError::LengthMismatch(Buffer::Weight))
        } else if !self.bias_fits(bias_len) {
            Err(HarnessError::LengthMismatch(Buffer::Bias))
        } else {
            Ok(())
        }
    }

    /// The first buffer, in the order input, weight, bias, output, whose
    /// length disagrees with the shape.
    pub open spec fn spec_check_buffers(
        self,
        out_len: int,
        inp_len: int,
        weight_len: int,
        bias_len: int,
    ) -> Result<(), HarnessError> {
        if self.spec_check_inputs(inp_len, weight_len, bias_len) is Err {
            self.spec_check_inputs(inp_len, weight_len, bias_len)
        } else if out_len != self.spec_output_len() {
            Err(HarnessError::LengthMismatch(Buffer::Output))
        } else {
            Ok(())
        }
    }

    /// Holds the lengths of the three read-only buffers against the shape.
    pub fn check_inputs(&self, inp_len: usize, weight_len: usize, bias_len: usize) -> (r: Result<
        (),
        HarnessError,
    >)
        ensures
            r == self.spec_check_inputs(inp_len as int, weight_len as int, bias_len as int),
            self.wf(),
    {
        if inp_len != self.input_len() {
            Err(HarnessError::LengthMismatch(Buffer::Input))
        } else if weight_len != self.weight_len() {
            Err(HarnessError::LengthMismatch(Buffer::Weight))
        } else if bias_len != 0 && bias_len != self.bias_len() {
            Err(HarnessError::LengthMismatch(Buffer::Bias))
        } else {
            Ok(())
        }
    }

    /// Holds the four buffer lengths of a call against the shape.
    pub fn check_buffers(
        &self,
        out_len: usize,
        inp_len: usize,
        weight_len: usize,
        bias_len: usize,
    ) -> (r: Result<(), HarnessError>)
        ensures
            r == self.spec_check_buffers(
                out_len as int,
                inp_len as int,
                weight_len as int,
                bias_len as int,
            ),
            self.wf(),
    {
        match self.check_inputs(inp_len, weight_len, bias_len) {
            Err(e) => Err(e),
            Ok(()) => {
                if out_len != self.output_len() {
                    Err(HarnessError::LengthMismatch(Buffer::Output))
                } else {
                    Ok(())
                }
            },
        }
    }

    /// Whether `(b, t)` names a row of the workload.
    pub open spec fn row_in_range(self, b: int, t: int) -> bool {
        0 <= b < self.batch() && 0 <= t < self.seq_len()
    }

    /// Flat position of input element `(b, t, i)`.
    pub open spec fn spec_input_index(self, b: int, t: int, i: int) -> int {
        b * self.seq_len() * self.channels() + t * self.channels() + i
    }

    /// Flat position of weight element `(o, i)`.
    pub open spec fn spec_weight_index(self, o: int, i: int) -> int {
        o * self.channels() + i
    }

    /// Flat position of output element `(b, t, o)`.
    pub open spec fn spec_output_index(self, b: int, t: int, o: int) -> int {
        b * self.seq_len() * self.out_channels() + t * self.out_channels() + o
    }

    /// Start of input row `(b, t)`: the position of its channel 0.
    pub fn input_offset(&self, b: usize, t: usize) -> (r: usize)
        requires
            self.row_in_range(b as int, t as int),
        ensures
            r == self.spec_input_index(b as int, t as int, 0),
            r + self.channels() <= self.spec_input_len(),
    {
        proof {
            use_type_invariant(self);
            lemma_row_span(
                self.batch() as int,
                self.seq_len() as int,
                self.channels() as int,
                b as int,
                t as int,
            );
            lemma_rows_bounded(b as int, self.seq_len() as int, self.channels() as int);
        }
        b * self.seq_len() * self.channels() + t * self.channels()
    }

    /// Start of weight row `o`.
    pub fn weight_offset(&self, o: usize) -> (r: usize)
        requires
            o < self.out_channels(),
        ensures
            r == self.spec_weight_index(o as int, 0),
            r + self.channels() <= self.spec_weight_len(),
    {
        proof {
            use_type_invariant(self);
            lemma_row_span(1, self.out_channels() as int, self.channels() as int, 0, o as int);
        }
        o * self.channels()
    }

    /// Start of output row `(b, t)`: the position of its output channel 0.
    pub fn output_offset(&self, b: usize, t: usize) -> (r: usize)
        requires
            self.row_in_range(b as int, t as int),
        ensures
            r == self.spec_output_index(b as int, t as int, 0),
            r + self.out_channels() <= self.spec_output_len(),
    {
        proof {
            use_type_invariant(self);
            lemma_row_span(
                self.batch() as int,
                self.seq_len() as int,
                self.out_channels() as int,
                b as int,
                t as int,
            );
            lemma_rows_bounded(b as int, self.seq_len() as int, self.out_channels() as int);
        }
        b * self.seq_len() * self.out_channels() + t * self.out_channels()
    }

    /// The `(b, t, o)` that a flat output position stands for.
    pub fn output_coords(&self, index: usize) -> (r: (usize, usize, usize))
        requires
            index < self.spec_output_len(),
        ensures
            self.row_in_range(r.0 as int, r.1 as int),
            r.2 < self.out_channels(),
            self.spec_output_index(r.0 as int, r.1 as int, r.2 as int) == index,
    {
        let o = index % self.out_channels();
        let row = index / self.out_channels();
        let t = row % self.seq_len();
        let b = row / self.seq_len();
        proof {
            use_type_invariant(self);
            lemma_split_index(
                self.batch() as int,
                self.seq_len() as int,
                self.out_channels() as int,
                index as int,
            );
        }
        (b, t, o)
    }
}

/// Row `(b, t)` of a `(B, T, W)` array starts at `b*T*W + t*W`, and the whole
/// row lies inside the array.
pub proof fn lemma_row_span(big_b: int, big_t: int, w: int, b: int, t: int)
    requires
        0 <= b < big_b,
        0 <= t < big_t,
        w >= 0,
    ensures
        0 <= b * big_t * w,
        0 <= t * w,
        b * big_t * w + t * w == (b * big_t + t) * w,
        b * big_t * w + t * w + w <= big_b * big_t * w,
{
    assert(b * big_t * w + t * w == (b * big_t + t) * w) by (nonlinear_arith);
    assert(0 <= b * big_t && b * big_t + t + 1 <= big_b * big_t) by (nonlinear_arith)
        requires
            0 <= b < big_b,
            0 <= t < big_t,
    ;
    assert(0 <= b * big_t * w && 0 <= t * w) by (nonlinear_arith)
        requires
            0 <= b * big_t,
            0 <= t,
            w >= 0,
    ;
    assert((b * big_t + t + 1) * w <= (big_b * big_t) * w) by (nonlinear_arith)
        requires
            b * big_t + t + 1 <= big_b * big_t,
            w >= 0,
    ;
    assert((b * big_t + t + 1) * w == (b * big_t + t) * w + w) by (nonlinear_arith);
}

/// The coordinates that compose a flat position are the ones that division
/// and remainder give back.
pub proof fn lemma_compose_index(big_t: int, w: int, b: int, t: int, o: int)
    requires
        0 <= b,
        0 <= t < big_t,
        0 <= o < w,
    ensures
        (b * big_t * w + t * w + o) % w == o,
        ((b * big_t * w + t * w + o) / w) % big_t == t,
        ((b * big_t * w + t * w + o) / w) / big_t == b,
{
    let index = b * big_t * w + t * w + o;
    let row = b * big_t + t;
    assert(index == row * w + o) by (nonlinear_arith)
        requires
            index == b * big_t * w + t * w + o,
            row == b * big_t + t,
    ;
    assert(0 <= row) by (nonlinear_arith)
        requires
            row == b * big_t + t,
            0 <= b,
            0 <= t < big_t,
    ;
    vstd::arithmetic::div_mod::lemma_fundamental_div_mod_converse(index, w, row, o);
    vstd::arithmetic::div_mod::lemma_fundamental_div_mod_converse(row, big_t, b, t);
}

/// A flat position below `B*T*W` splits into in-range coordinates by division
/// and remainder, and they compose back to it.
pub proof fn lemma_split_index(big_b: int, big_t: int, w: int, index: int)
    requires
        big_b >= 1,
        big_t >= 1,
        w >= 1,
        0 <= index < big_b * big_t * w,
    ensures
        0 <= index % w < w,
        0 <= (index / w) % big_t < big_t,
        0 <= (index / w) / big_t < big_b,
        ((index / w) / big_t) * big_t * w + ((index / w) % big_t) * w + index % w == index,
{
    let row = index / w;
    let o = index % w;
    let b = row / big_t;
    let t = row % big_t;
    vstd::arithmetic::div_mod::lemma_fundamental_div_mod(index, w);
    vstd::arithmetic::div_mod::lemma_fundamental_div_mod(row, big_t);
    assert(0 <= row < big_b * big_t) by (nonlinear_arith)
        requires
            index == w * row + o,
            0 <= o < w,
            0 <= index < big_b * big_t * w,
            w >= 1,
    ;
    assert(0 <= b < big_b) by (nonlinear_arith)
        requires
            row == big_t * b + t,
            0 <= t < big_t,
            0 <= row < big_b * big_t,
            big_t >= 1,
    ;
    assert(b * big_t * w + t * w + o == index) by (nonlinear_arith)
        requires
            row == big_t * b + t,
            index == w * row + o,
    ;
}

/// With a positive width, the row count `b * t` is no more than `b * t * w`.
pub proof fn lemma_rows_bounded(b: int, t: int, w: int)
    requires
        b >= 0,
        t >= 0,
        w >= 1,
    ensures
        b * t <= b * t * w,
{
    assert(b * t >= 0) by (nonlinear_arith)
        requires
            b >= 0,
            t >= 0,
    ;
    assert(b * t <= b * t * w) by (nonlinear_arith)
        requires
            b * t >= 0,
            w >= 1,
    ;
}

} // verus!
