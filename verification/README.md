# mlp

A multilayer-perceptron trainer for binary classification from CSV data,
configured by YAML, with per-epoch metrics, early stopping, metric history
and learning-curve images.

The crate is split in two:

- `src/` is the verified library (Verus). It holds the integer and text
  logic of the trainer: configuration checking and layer resolution,
  command-line resolution and overrides, stratified splitting of row groups,
  batching, early-stopping bookkeeping, class-outcome counting, text-column
  coding, model-file checks, the calendar behind report timestamps, and the
  small formatting helpers. Settings that are floating-point numbers are
  carried as their IEEE-754 bit patterns; the library never computes with
  them.
- `app/` is the program around it: argument parsing with clap, CSV loading
  with polars, the ndarray network (forward and backward passes, losses,
  optimizers, metric values), YAML and JSON files with serde, and the
  learning-curve plots with plotters.

Subcommands: `split` writes a stratified train/validation split of a CSV
file, `train` trains a network from a dataset and a configuration, `predict`
evaluates a saved model on a dataset.
