# thasia

The rules of a manga converter, written in Verus and proved against their
contracts.

`src/` is the verified library:

- `scan` groups scanned images into chapter groups in reading order;
- `edits` and `resolve` hold the page editor's model and turn a volume's edits
  into the final page list;
- `pipeline_plan` builds the preview of the processing stages and page counts;
- `reorder`, `stats` and `run` put processed pages back in page order and keep
  a run's totals;
- `protocol` and `web` build and serve `thasia://image` URLs;
- `discovery`, `settings` and `ui` hold the download-server integration, the
  persistent settings and the desktop front end's rules;
- `error`, `events`, `options`, `paths` and `text` are shared vocabulary.

Laws that span several functions are public proof functions named `law_*`.

`app/` is the unverified shell: platform directories, settings files, logging,
the single-instance lock, file access for the image protocol, serializable
copies of the library's types, and the floating-point formatting shown in the
interface.
