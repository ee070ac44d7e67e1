//! Errors that end a verification or benchmark cycle.

use vstd::prelude::*;

verus! {

/// The buffers that a kernel call reads or writes.
#[derive(Clone, Copy, Debug, PartialEq, Eq, Structural)]
pub enum Buffer {
    Input,
    Weight,
    Bias,
    Output,
    Params,
    Grads,
    FirstMoment,
    SecondMoment,
}

/// Why a cycle was abandoned before or during a kernel call.
#[derive(Clone, Copy, Debug, PartialEq, Eq, Structural)]
pub enum HarnessError {
    /// A shape dimension or a parameter count is zero.
    EmptyDimension,
    /// A buffer length implied by the shape does not fit in `usize`.
    SizeOverflow,
    /// The named buffer does not have the length that the shape implies.
    LengthMismatch(Buffer),
    /// A coordinate lies outside the shape, or an amplitude is below one.
    OutOfRange,
    /// The kernel identifier is not registered in its family.
    UnsupportedKernel,
    /// A dimension, count or tuning value does not fit the integer type of
    /// the device call.
    DimensionTooLarge,
    /// The optimizer step counter is outside `1..=i32::MAX`.
    InvalidStep,
    /// A driver was handed an event that its stage does not take.
    OutOfOrder,
    /// The device reported a failure with the given status code.
    DeviceFault(i32),
}

impl Buffer {
    /// The buffer's name as it appears in messages.
    pub open spec fn spec_name(self) -> Seq<char> {
        match self {
            Buffer::Input => "input"@,
            Buffer::Weight => "weight"@,
            Buffer::Bias => "bias"@,
            Buffer::Output => "output"@,
            Buffer::Params => "params"@,
            Buffer::Grads => "grads"@,
            Buffer::FirstMoment => "m"@,
            Buffer::SecondMoment => "v"@,
        }
    }

    /// The buffer's name as it appears in messages.
    pub fn name(&self) -> (r: String)
        ensures
            r@ == self.spec_name(),
    {
        match self {
            Buffer::Input => "input".to_owned(),
            Buffer::Weight => "weight".to_owned(),
            Buffer::Bias => "bias".to_owned(),
            Buffer::Output => "output".to_owned(),
            Buffer::Params => "params".to_owned(),
            Buffer::Grads => "grads".to_owned(),
            Buffer::FirstMoment => "m".to_owned(),
            Buffer::SecondMoment => "v".to_owned(),
        }
    }
}

impl HarnessError {
    /// What went wrong, in words.
    pub open spec fn spec_message(self) -> Seq<char> {
        match self {
            HarnessError::EmptyDimension => "a dimension is zero"@,
            HarnessError::SizeOverflow => "a buffer length does not fit in memory"@,
            HarnessError::LengthMismatch(_) => "a buffer length does not match the shape"@,
            HarnessError::OutOfRange => "a value is out of range"@,
            HarnessError::UnsupportedKernel => "unsupported kernel variant"@,
            HarnessError::DimensionTooLarge => "a size does not fit the device integer"@,
            HarnessError::InvalidStep => "the optimizer step is out of range"@,
            HarnessError::OutOfOrder => "the event does not belong to the stage"@,
            HarnessError::DeviceFault(_) => "device execution fault"@,
        }
    }

    /// What went wrong, in words.
    pub fn message(&self) -> (r: String)
        ensures
            r@ == self.spec_message(),
    {
        match self {
            HarnessError::EmptyDimension => "a dimension is zero".to_owned(),
            HarnessError::SizeOverflow => "a buffer length does not fit in memory".to_owned(),
            HarnessError::LengthMismatch(_) => "a buffer length does not match the shape".to_owned(),
            HarnessError::OutOfRange => "a value is out of range".to_owned(),
            HarnessError::UnsupportedKernel => "unsupported kernel variant".to_owned(),
            HarnessError::DimensionTooLarge => "a size does not fit the device integer".to_owned(),
            HarnessError::InvalidStep => "the optimizer step is out of range".to_owned(),
            HarnessError::OutOfOrder => "the event does not belong to the stage".to_owned(),
            HarnessError::DeviceFault(_) => "device execution fault".to_owned(),
        }
    }

    /// Whether the error is an infrastructure failure of the device rather
    /// than a fault of the arguments.
    pub open spec fn spec_is_device_fault(self) -> bool {
        self is DeviceFault
    }

    /// Whether the error is an infrastructure failure of the device rather
    /// than a fault of the arguments.
    pub fn is_device_fault(&self) -> (r: bool)
        ensures
            r == self.spec_is_device_fault(),
    {
        match self {
            HarnessError::DeviceFault(_) => true,
            _ => false,
        }
    }
}

} // verus!
