//! What a loss reports when it cannot be computed.

use crate::dtype::DType;
use crate::text::{bracketed, decimal, push_decimal, push_list, push_signed, signed_decimal};
use vstd::prelude::*;
use vstd::string::*;

verus! {

/// The reason why a loss was not computed. `D` is the type of a list of dimensions and `B` that of
/// an error of the tensor backend.
#[derive(Debug)]
#[allow(inconsistent_fields)]
pub enum ErrorOf<D, B> {
    /// The target is not a vector.
    TargetRank { dims: D },
    /// The log probabilities are not a matrix.
    ScoresRank { dims: D },
    /// The logits are not a matrix.
    InputRank { dims: D },
    /// The logits do not have two dimensions.
    NotMatrix,
    /// The input and the target differ in their number of rows.
    BatchSize { inp: usize, target: usize },
    /// There is no class to choose from.
    NoClasses,
    /// A label names no class.
    LabelOutOfBounds { label: usize, n_classes: usize },
    /// A label is negative.
    LabelNegative { label: i64 },
    /// A label does not fit in an index.
    LabelTooLarge { label: i64 },
    /// The target's elements cannot be labels.
    LabelDType { dtype: DType },
    /// An accelerator is asked to read 64-bit labels.
    AcceleratorI64,
    /// An accelerator is asked to read labels of a type that it does not know.
    AcceleratorLabelDType { dtype: DType },
    /// The target is not stored row by row.
    TargetStrided,
    /// The target does not hold one label per row.
    TargetCount { expected: usize, got: usize },
    /// The target's storage holds no labels.
    TargetStorage { dtype: DType },
    /// The row losses do not compute with the logits' type.
    InputDType { dtype: DType },
    /// The row gradients do not compute with these types.
    BackwardDType { inp: DType, grad: DType },
    /// The logits are not stored row by row.
    InputStrided,
    /// The gradient does not hold one number per row.
    GradShape { expected: usize, dims: D },
    /// The gradient is not stored element after element.
    GradStrided,
    /// The input and the target differ in shape.
    ShapeMismatch { inp: D, target: D },
    /// A CUDA kernel is asked to read strided data.
    CudaStrided,
    /// A CUDA gradient kernel is asked to read strided data.
    CudaBackwardStrided,
    /// A CUDA kernel is asked to read labels of another type than `U32`.
    CudaLabelDType,
    /// No CUDA kernel computes with this type.
    CudaDType { dtype: DType },
    /// No CUDA gradient kernel computes with these types.
    CudaBackwardDType { inp: DType, grad: DType },
    /// A Metal kernel is asked to read strided data.
    MetalStrided,
    /// A Metal gradient kernel is asked to read strided data.
    MetalBackwardStrided,
    /// No Metal kernel computes with these types.
    MetalDType { inp: DType, target: DType },
    /// No Metal gradient kernel computes with these types.
    MetalBackwardDType { inp: DType, target: DType, grad: DType },
    /// The sigmoid does not compute with this type.
    SigmoidDType { dtype: DType },
    /// The sigmoid's argument is not stored element after element.
    SigmoidStrided,
    /// A tensor has more dimensions than the processor walks through.
    TooManyDims { dims: D },
    /// A tensor that should have no elements has some.
    NotEmpty,
    /// A layout reaches past the end of its storage.
    OutOfStorage,
    /// The tensor backend refused an operation.
    Backend(B),
}

/// The reason why a loss was not computed, as the functions return it.
pub type LossError = ErrorOf<Vec<usize>, candle_core::Error>;

/// The reason why a loss was not computed, as the contracts speak of it: the dimensions as
/// sequences, and an error of the backend by its text.
pub type Fault = ErrorOf<Seq<usize>, Seq<char>>;

/// Declares `candle_core::Error`: an error of the backend, which the contracts know by its text.
#[verifier::external_type_specification]
#[verifier::external_body]
pub struct ExError(candle_core::Error);

/// The text that an error of the backend carries.
pub uninterp spec fn error_text(e: candle_core::Error) -> Seq<char>;

/// Calls `candle_core::Error::msg`, which makes an error that carries the text it is given. Where
/// the process asks for backtraces the error also holds one, which is not part of that text.
#[verifier::external_body]
pub(crate) fn error_with_text(text: String) -> (r: candle_core::Error)
    ensures
        error_text(r) == text@,
{
    candle_core::Error::msg(text)
}

impl View for ErrorOf<Vec<usize>, candle_core::Error> {
    type V = Fault;

    open spec fn view(&self) -> Fault {
        match *self {
            ErrorOf::TargetRank { dims } => ErrorOf::TargetRank { dims: dims@ },
            ErrorOf::ScoresRank { dims } => ErrorOf::ScoresRank { dims: dims@ },
            ErrorOf::InputRank { dims } => ErrorOf::InputRank { dims: dims@ },
            ErrorOf::NotMatrix => ErrorOf::NotMatrix,
            ErrorOf::BatchSize { inp, target } => ErrorOf::BatchSize { inp, target },
            ErrorOf::NoClasses => ErrorOf::NoClasses,
            ErrorOf::LabelOutOfBounds { label, n_classes } => ErrorOf::LabelOutOfBounds {
                label,
                n_classes,
            },
            ErrorOf::LabelNegative { label } => ErrorOf::LabelNegative { label },
            ErrorOf::LabelTooLarge { label } => ErrorOf::LabelTooLarge { label },
            ErrorOf::LabelDType { dtype } => ErrorOf::LabelDType { dtype },
            ErrorOf::AcceleratorI64 => ErrorOf::AcceleratorI64,
            ErrorOf::AcceleratorLabelDType { dtype } => ErrorOf::AcceleratorLabelDType { dtype },
            ErrorOf::TargetStrided => ErrorOf::TargetStrided,
            ErrorOf::TargetCount { expected, got } => ErrorOf::TargetCount { expected, got },
            ErrorOf::TargetStorage { dtype } => ErrorOf::TargetStorage { dtype },
            ErrorOf::InputDType { dtype } => ErrorOf::InputDType { dtype },
            ErrorOf::BackwardDType { inp, grad } => ErrorOf::BackwardDType { inp, grad },
            ErrorOf::InputStrided => ErrorOf::InputStrided,
            ErrorOf::GradShape { expected, dims } => ErrorOf::GradShape { expected, dims: dims@ },
            ErrorOf::GradStrided => ErrorOf::GradStrided,
            ErrorOf::ShapeMismatch { inp, target } => ErrorOf::ShapeMismatch {
                inp: inp@,
                target: target@,
            },
            ErrorOf::CudaStrided => ErrorOf::CudaStrided,
            ErrorOf::CudaBackwardStrided => ErrorOf::CudaBackwardStrided,
            ErrorOf::CudaLabelDType => ErrorOf::CudaLabelDType,
            ErrorOf::CudaDType { dtype } => ErrorOf::CudaDType { dtype },
            ErrorOf::CudaBackwardDType { inp, grad } => ErrorOf::CudaBackwardDType { inp, grad },
            ErrorOf::MetalStrided => ErrorOf::MetalStrided,
            ErrorOf::MetalBackwardStrided => ErrorOf::MetalBackwardStrided,
            ErrorOf::MetalDType { inp, target } => ErrorOf::MetalDType { inp, target },
            ErrorOf::MetalBackwardDType { inp, target, grad } => ErrorOf::MetalBackwardDType {
                inp,
                target,
                grad,
            },
            ErrorOf::SigmoidDType { dtype } => ErrorOf::SigmoidDType { dtype },
            ErrorOf::SigmoidStrided => ErrorOf::SigmoidStrided,
            ErrorOf::TooManyDims { dims } => ErrorOf::TooManyDims { dims: dims@ },
            ErrorOf::NotEmpty => ErrorOf::NotEmpty,
            ErrorOf::OutOfStorage => ErrorOf::OutOfStorage,
            ErrorOf::Backend(e) => ErrorOf::Backend(error_text(e)),
        }
    }
}

/// The message for a fault.
pub open spec fn message_of(f: Fault) -> Seq<char> {
    match f {
        ErrorOf::TargetRank { dims } => {
            "the target tensor should have a single dimension ("@ + bracketed(dims) + ")"@
        },
        ErrorOf::ScoresRank { dims } => {
            "the target tensor should have two dimensions ("@ + bracketed(dims) + ")"@
        },
        ErrorOf::InputRank { dims } => {
            "the input tensor should have two dimensions ("@ + bracketed(dims) + ")"@
        },
        ErrorOf::NotMatrix => "cross_entropy expects an input tensor of rank 2"@,
        ErrorOf::BatchSize { inp, target } => {
            "batch size mismatch between inp ("@ + decimal(inp as nat) + ") and target ("@
                + decimal(target as nat) + ")"@
        },
        ErrorOf::NoClasses => "cross_entropy expects at least one class"@,
        ErrorOf::LabelOutOfBounds { label, n_classes } => {
            "target index "@ + decimal(label as nat) + " is out of bounds for "@
                + decimal(n_classes as nat) + " classes"@
        },
        ErrorOf::LabelNegative { label } => {
            "target index "@ + signed_decimal(label as int) + " is negative"@
        },
        ErrorOf::LabelTooLarge { label } => {
            "target index "@ + signed_decimal(label as int) + " cannot be cast to usize"@
        },
        ErrorOf::LabelDType { dtype } => {
            "cross_entropy target dtype must be U8, U32, or I64, got "@ + dtype.text()
        },
        ErrorOf::AcceleratorI64 => {
            "cross_entropy target dtype I64 is not supported on CUDA/Metal; use U32 or U8 targets"@
        },
        ErrorOf::AcceleratorLabelDType { dtype } => {
            "unsupported cross_entropy target dtype "@ + dtype.text()
        },
        ErrorOf::TargetStrided => "target has to be contiguous"@,
        ErrorOf::TargetCount { expected, got } => {
            "target has an unexpected number of elements, expected "@ + decimal(expected as nat)
                + ", got "@ + decimal(got as nat)
        },
        ErrorOf::TargetStorage { dtype } => {
            "unsupported target dtype for cross_entropy "@ + dtype.text()
        },
        ErrorOf::InputDType { dtype } => {
            "unsupported input dtype for cross_entropy "@ + dtype.text()
        },
        ErrorOf::BackwardDType { inp, grad } => {
            "unsupported dtype for cross_entropy backward "@ + inp.text() + " "@ + grad.text()
        },
        ErrorOf::InputStrided => "input has to be contiguous"@,
        ErrorOf::GradShape { expected, dims } => {
            "grad_res should have shape ["@ + decimal(expected as nat) + "], got "@
                + bracketed(dims)
        },
        ErrorOf::GradStrided => "grad_res has to be contiguous"@,
        ErrorOf::ShapeMismatch { inp, target } => {
            "input and target must have the same shape, got inp: "@ + bracketed(inp) + ", target: "@
                + bracketed(target)
        },
        ErrorOf::CudaStrided => "Non contiguous cross_entropy is not implemented for CUDA"@,
        ErrorOf::CudaBackwardStrided => {
            "Non contiguous cross_entropy backward is not implemented for CUDA"@
        },
        ErrorOf::CudaLabelDType => "CUDA cross_entropy target must be U32"@,
        ErrorOf::CudaDType { dtype } => {
            "unsupported dtype for cross_entropy "@ + dtype.text()
        },
        ErrorOf::CudaBackwardDType { inp, grad } => {
            "unsupported dtype for cross_entropy bwd "@ + inp.text() + " "@ + grad.text()
        },
        ErrorOf::MetalStrided => "Non contiguous cross_entropy is not implemented for Metal"@,
        ErrorOf::MetalBackwardStrided => {
            "Non contiguous cross_entropy backward is not implemented for Metal"@
        },
        ErrorOf::MetalDType { inp, target } => {
            "cross_entropy is not implemented for "@ + inp.text() + " "@ + target.text()
        },
        ErrorOf::MetalBackwardDType { inp, target, grad } => {
            "cross_entropy backward is not implemented for "@ + inp.text() + " "@ + target.text()
                + " "@ + grad.text()
        },
        ErrorOf::SigmoidDType { dtype } => {
            "unsupported dtype "@ + dtype.text() + " for op sigmoid"@
        },
        ErrorOf::SigmoidStrided => "sigmoid input has to be contiguous"@,
        ErrorOf::TooManyDims { dims } => {
            "tensor should have at most eight dimensions ("@ + bracketed(dims) + ")"@
        },
        ErrorOf::NotEmpty => "tensor should have no elements"@,
        ErrorOf::OutOfStorage => "layout reaches past the end of its storage"@,
        ErrorOf::Backend(text) => text,
    }
}

impl ErrorOf<Vec<usize>, candle_core::Error> {
    /// The message for an error that this library found itself; `None` for one of the backend,
    /// which prints itself.
    pub fn message(&self) -> (r: Option<String>)
        ensures
            r is None <==> *self is Backend,
            r matches Some(text) ==> text@ == message_of(self@),
    {
        let mut out: String;
        match self {
            ErrorOf::TargetRank { dims } => {
                out = String::from_str("the target tensor should have a single dimension (");
                push_list(&mut out, dims);
                out.append(")");
            },
            ErrorOf::ScoresRank { dims } => {
                out = String::from_str("the target tensor should have two dimensions (");
                push_list(&mut out, dims);
                out.append(")");
            },
            ErrorOf::InputRank { dims } => {
                out = String::from_str("the input tensor should have two dimensions (");
                push_list(&mut out, dims);
                out.append(")");
            },
            ErrorOf::NotMatrix => {
                out = String::from_str("cross_entropy expects an input tensor of rank 2");
            },
            ErrorOf::BatchSize { inp, target } => {
                out = String::from_str("batch size mismatch between inp (");
                push_decimal(&mut out, *inp as u64);
                out.append(") and target (");
                push_decimal(&mut out, *target as u64);
                out.append(")");
            },
            ErrorOf::NoClasses => {
                out = String::from_str("cross_entropy expects at least one class");
            },
            ErrorOf::LabelOutOfBounds { label, n_classes } => {
                out = String::from_str("target index ");
                push_decimal(&mut out, *label as u64);
                out.append(" is out of bounds for ");
                push_decimal(&mut out, *n_classes as u64);
                out.append(" classes");
            },
            ErrorOf::LabelNegative { label } => {
                out = String::from_str("target index ");
                push_signed(&mut out, *label);
                out.append(" is negative");
            },
            ErrorOf::LabelTooLarge { label } => {
                out = String::from_str("target index ");
                push_signed(&mut out, *label);
                out.append(" cannot be cast to usize");
            },
            ErrorOf::LabelDType { dtype } => {
                out = String::from_str("cross_entropy target dtype must be U8, U32, or I64, got ");
                out.append(dtype.name());
            },
            ErrorOf::AcceleratorI64 => {
                out = String::from_str(
                    "cross_entropy target dtype I64 is not supported on CUDA/Metal; use U32 or U8 targets",
                );
            },
            ErrorOf::AcceleratorLabelDType { dtype } => {
                out = String::from_str("unsupported cross_entropy target dtype ");
                out.append(dtype.name());
            },
            ErrorOf::TargetStrided => {
                out = String::from_str("target has to be contiguous");
            },
            ErrorOf::TargetCount { expected, got } => {
                out = String::from_str("target has an unexpected number of elements, expected ");
                push_decimal(&mut out, *expected as u64);
                out.append(", got ");
                push_decimal(&mut out, *got as u64);
            },
            ErrorOf::TargetStorage { dtype } => {
                out = String::from_str("unsupported target dtype for cross_entropy ");
                out.append(dtype.name());
            },
            ErrorOf::InputDType { dtype } => {
                out = String::from_str("unsupported input dtype for cross_entropy ");
                out.append(dtype.name());
            },
            ErrorOf::BackwardDType { inp, grad } => {
                out = String::from_str("unsupported dtype for cross_entropy backward ");
                out.append(inp.name());
                out.append(" ");
                out.append(grad.name());
            },
            ErrorOf::InputStrided => {
                out = String::from_str("input has to be contiguous");
            },
            ErrorOf::GradShape { expected, dims } => {
                out = String::from_str("grad_res should have shape [");
                push_decimal(&mut out, *expected as u64);
                out.append("], got ");
                push_list(&mut out, dims);
            },
            ErrorOf::GradStrided => {
                out = String::from_str("grad_res has to be contiguous");
            },
            ErrorOf::ShapeMismatch { inp, target } => {
                out = String::from_str("input and target must have the same shape, got inp: ");
                push_list(&mut out, inp);
                out.append(", target: ");
                push_list(&mut out, target);
            },
            ErrorOf::CudaStrided => {
                out = String::from_str("Non contiguous cross_entropy is not implemented for CUDA");
            },
            ErrorOf::CudaBackwardStrided => {
                out = String::from_str(
                    "Non contiguous cross_entropy backward is not implemented for CUDA",
                );
            },
            ErrorOf::CudaLabelDType => {
                out = String::from_str("CUDA cross_entropy target must be U32");
            },
            ErrorOf::CudaDType { dtype } => {
                out = String::from_str("unsupported dtype for cross_entropy ");
                out.append(dtype.name());
            },
            ErrorOf::CudaBackwardDType { inp, grad } => {
                out = String::from_str("unsupported dtype for cross_entropy bwd ");
                out.append(inp.name());
                out.append(" ");
                out.append(grad.name());
            },
            ErrorOf::MetalStrided => {
                out = String::from_str("Non contiguous cross_entropy is not implemented for Metal");
            },
            ErrorOf::MetalBackwardStrided => {
                out = String::from_str(
                    "Non contiguous cross_entropy backward is not implemented for Metal",
                );
            },
            ErrorOf::MetalDType { inp, target } => {
                out = String::from_str("cross_entropy is not implemented for ");
                out.append(inp.name());
                out.append(" ");
                out.append(target.name());
            },
            ErrorOf::MetalBackwardDType { inp, target, grad } => {
                out = String::from_str("cross_entropy backward is not implemented for ");
                out.append(inp.name());
                out.append(" ");
                out.append(target.name());
                out.append(" ");
                out.append(grad.name());
            },
            ErrorOf::SigmoidDType { dtype } => {
                out = String::from_str("unsupported dtype ");
                out.append(dtype.name());
                out.append(" for op sigmoid");
            },
            ErrorOf::SigmoidStrided => {
                out = String::from_str("sigmoid input has to be contiguous");
            },
            ErrorOf::TooManyDims { dims } => {
                out = String::from_str("tensor should have at most eight dimensions (");
                push_list(&mut out, dims);
                out.append(")");
            },
            ErrorOf::NotEmpty => {
                out = String::from_str("tensor should have no elements");
            },
            ErrorOf::OutOfStorage => {
                out = String::from_str("layout reaches past the end of its storage");
            },
            ErrorOf::Backend(_) => {
                return None;
            },
        }
        Some(out)
    }
}

/// The error of the backend that carries the message for an error of this library; one that the
/// backend made is handed on.
pub fn into_backend(e: LossError) -> (r: candle_core::Error)
    ensures
        error_text(r) == message_of(e@),
{
    match e.message() {
        Some(text) => error_with_text(text),
        None => match e {
            ErrorOf::Backend(b) => b,
            _ => error_with_text(String::new()),
        },
    }
}

/// The error that the backend hands on for a fault that an operation found.
pub open spec fn found_in_op(f: Fault) -> Fault {
    ErrorOf::Backend(message_of(f))
}

/// A result of the backend as one of this library.
pub fn from_backend<T>(r: Result<T, candle_core::Error>) -> (o: Result<T, LossError>)
    ensures
        r matches Ok(t) ==> o == Ok::<T, LossError>(t),
        r matches Err(e) ==> o == Err::<T, LossError>(ErrorOf::Backend(e)),
{
    match r {
        Ok(t) => Ok(t),
        Err(e) => Err(ErrorOf::Backend(e)),
    }
}

} // verus!
