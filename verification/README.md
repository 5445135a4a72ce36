# ironrdp-web

Device redirection for a browser RDP client, verified with Verus: a virtual drive that the
embedding page seeds from files chosen by the user, and playback of server audio.

The page never exposes a local path. Windows sees a small file tree in memory. A file that was
chosen is known by name, size and time, and its bytes are asked from the page when they are read.
A file that Windows creates or writes is held in memory and offered as a download when its handle
is closed.

## Layout

- `src/text.rs`, `src/path.rs`: text order, path components, normalization and confinement.
- `src/path_map.rs`: a map from paths to values in path order.
- `src/filetime.rs`: timestamps.
- `src/drive.rs`, `src/drive_laws.rs`: the file tree and what always holds of it.
- `src/efs.rs`, `src/response.rs`: requests and answers as plain values.
- `src/backend_model.rs`: what each request does, as functions from state to state and answer.
- `src/backend.rs`, `src/backend_laws.rs`: the backend that does it, and what always holds of it.
- `src/rdpdr.rs`: one backend for the drive and the optional printer.
- `src/audio.rs`: the offered audio formats and the samples that reach the page.
- `app/`: channel handlers and calls into the page.

## What is trusted

`String::push` of the standard library, the constructors of four directory-entry messages of
`ironrdp-rdpdr`, and the `Debug` text of its status and information-class codes. Their contracts
are in `src/text.rs` and `src/efs.rs`.
