# anime_pic_manage

The core of a desktop application that manages an anime picture library:
library scans with character recognition, similar-image governance, manual
annotations and a personal recognition model, LoRA dataset export and kohya
training, ComfyUI generation, and the installers of the AI worker and its
CUDA runtime.

## Layout

- `src/` is the library, written in Verus. Every executable function has a
  contract that states its result, and the proofs are checked by Verus. The
  laws of the library stand as public proof functions named `law_*` (for
  example the pause/resume state machine in `state.rs`, the settings round
  trip in `app_settings.rs`, and the caption-shuffle rewrite in `kohya.rs`).
  Calls into outside crates sit behind a few small trusted wrappers, each with
  a doc comment naming the outside function.
- `tests/` runs the library on concrete values.
- `app/` is ordinary Rust around the library: the settings table (rusqlite),
  saved result files, the blocking side of scan pauses, workflow files
  (serde_json), reading downloads into the library's SHA-256 digest,
  archives (zip), the stored personal-model versions, the trainer
  process, probes of the file system and the operating system, and the
  floating-point parts (range checks and rounding of the similarity
  threshold and font size, box coordinates). Apart from those, it carries out
  what the library decides, such as removing a download the library refused.

## Checking

Verus verifies `src/`; the tests and `app/` build with the same crates as the
library.
