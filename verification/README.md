# FEED Desktop

The encrypted archive of FEED Desktop, as a verified library and the program around it.

- `src/` decides. It derives and wraps keys, says what to do step by step to make, open and lock
  an archive, and judges windows and permissions. Its functions have contracts that Verus proves.
  What is not proved but taken for granted, of the operations of other crates and of the standard
  library, stands in `src/crypto.rs`, `src/secret.rs` and `src/text.rs`.
- `app/` acts. It reads and writes files, runs statements on the databases, opens windows, and
  tells the library how that went. It needs Tauri 2 and, on Linux, WebKitGTK.
- `tests/` runs the library on chosen values.
