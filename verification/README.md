# astra_optimizer

The logic of a tool that tunes ASTRA reconstruction parameters on a
pre-processed CT checkpoint, written and verified in Verus.

* `src/` is the library. Verus proves the contract of every function but those of
  the calls into `serde_json` in `src/json.rs` (the functions marked
  `external_body` and the `assume_specification` items) and of the one call of
  `String::from_utf8_lossy` in `src/text.rs`, which it believes.
  * `method`: the reconstruction algorithms and their names.
  * `params`: the parameters, their defaults, their saved JSON form, and how a
    loaded stack seeds them.
  * `description`: what the one-line description of the parameters says.
  * `stack`: what is read of a loaded stack, and the records in its metadata.
  * `bands`: the rows a test reconstruction runs on.
  * `recon`: the plan, the specification file and the result of one run.
  * `checkpoint`: the steps that save the parameters, and the geometry read back.
  * `json`: a model of JSON values and the calls into `serde_json`.
  * `text`: lines, trimming, decimal numbers, bytes as text.
* `app/` reads and writes the HDF5 checkpoint and runs the reconstruction.

Floating-point numbers stay outside the library: it carries them as a type `F`
and is handed the functions that turn one into JSON, read one from JSON, or
write one with two decimals. The proof functions named `law_...` state what holds
across several functions, such as that saved parameters are read back.
