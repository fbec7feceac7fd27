# rustup_mock

A mock distribution server and a mock forward proxy for testing rustup's downloads.

Both programs can ask for basic authentication, and both write a small `key=value` data file that
says where they listen. The file is written after the listener is bound, so its presence means that
the program is ready.

- `src/` is the logic, with contracts that Verus proves.
  - `text`, `data_map`: lines, splitting, decimal numbers, and the sorted map of a data file
  - `mock_data`: what a data file holds, where it lies, and how it is put in place
  - `round_trip`, `atomic_write`: what readers of a data file find
  - `encoding`, `headers`, `auth`: base64 text, header fields and the `Basic` scheme
  - `response`, `server`, `proxy`: how requests are answered, step by step
  - `lifecycle`: from binding the listener to removing the data file
- `app/` is the program around it: options, sockets, files, signals. It goes by the name that it is
  called by, `rustup-mock-server` or `rustup-mock-proxy`.
- `tests/` runs the library with the files and the network played by the tests.

What outside crates do is taken on trust in three small wrappers, each with a contract: around
`HeaderMap::get`, and around `HeaderValue::from_bytes` with `HeaderValue::to_str`, in `headers`, and
around the standard base64 encoder in `encoding`.
