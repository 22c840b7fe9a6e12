# candle-loss

Loss functions over [candle](https://github.com/huggingface/candle) tensors, verified with Verus:
the negative log likelihood, the cross-entropy with its fused gradient, the mean squared error, the
binary cross-entropy with logits and the Huber loss.

* `src/` is the library.
  * `loss` holds the losses.
  * `row_op` and `rows` hold the cross-entropy of each row and its gradient, as operations that the
    tensor backend runs and differentiates; `steps` computes the same step by step, which is how it
    is done on an accelerator. `sigmoid` holds the logistic function as an operation, and `renewal`
    tensors without elements, which are stored anew before they are read.
  * `label` and `shape` decide which labels and dimensions are accepted, `error` says what is wrong
    with the others, and `text` writes that down.
  * `launch` decides how the fused kernels of an accelerator are launched.
  * `laws` states what holds of the losses as a whole.
  * `model` says how the contracts speak of tensors, and `backend` what is believed of candle.
* `app/` offers the losses with candle's own error type, and launches the fused kernels.
* `tests/` runs the library with candle.

The contracts do not model floating-point arithmetic. They say which operation each number comes
from and which numbers went into it, when a loss is computed, and which error is given when it is
not.
