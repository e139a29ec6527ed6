# nsay

A local image and video toolkit: background removal, image upscaling, video
upscaling and frame interpolation, run by per-backend sidecar processes
(CUDA, DirectML, CPU, or a Docker container for video super-resolution).

`src/` is the library, verified with Verus. Its functions carry contracts
that are proved; where a result comes from an outside crate or from
`std::path`, the contract states what that code documents (for paths: on
texts that Unix and Windows read alike) and the rest is proved from it.

- `paths` — what `std::path` does to plain paths, and joins.
- `text` — character-level helpers (trimming, words, lines, decimal
  numbers) stated over `Seq<char>`.
- `models`, `models_cmd` — the model catalogue, where models live, the
  listing shown in the settings, and the bookkeeping of downloads.
- `config`, `state_cmd` — the settings file, rewritten in place through
  `toml_edit` (the table and key model of the edit is stated; how
  `toml_edit` renders the text is not), and the backend choice.
- `ffmpeg` — locating ffmpeg/ffprobe, choosing encoders, reading probes.
- `tools` — choosing a sidecar, naming batch outputs, the command lines and
  arithmetic of image and video runs, the tally of a batch.
- `sidecar` — the sidecars' command lines, tile and padding geometry, mask
  post-processing, the container shim's logic, the progress protocol, and
  the proofs that what the application writes the sidecars read back.

`app/` is the executable around it: I/O, processes, ONNX Runtime and
libtorch inference, floating-point image work. Installed under a sidecar's
name it acts as that sidecar.

`tests/` runs the library on concrete values.
