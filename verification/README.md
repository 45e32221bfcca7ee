# trypanophobe

Checks user prompts for injection attempts before they reach a model, from
the command line (`trypanophobe check ...`) or over HTTP (`trypanophobe serve`).
Only English prompts are classified; others are turned away at once.

Layout:

- `src/` — the verified library (Verus):
  - `text` — character classes, ASCII case folding, trimming, splitting into runs, decimals;
  - `language` — the English-only filter (language detector, then a Latin-script
    and dictionary fallback);
  - `detector` — the classifier front end's own filter and the label read off the model;
  - `paths` — path components, path order, file names, extensions, a verified sort;
  - `inputs` — turning arguments into the prompts to check;
  - `cli` — the batch check as a state machine (what to do next, what came of it);
  - `model_slot` — the life cycle of the shared classifier;
  - `http` — how a check request is answered before the classifier runs;
  - `types` — requests, results, HTTP statuses, version;
  - `assets` — unpacking the model archive (xz, tar).
- `app/` — the program: command line, file system, HTTP server, threads, and the
  ONNX inference, which works in floating point.
- `tests/` — tests of the library.

The model archive (`model.onnx` and `tokenizer.json` in an xz-compressed tar) is
read from the file named by `TRYPANOPHOBE_ASSETS` (default `assets/model.tar.xz`).
