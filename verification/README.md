# siemens-plc-monitor

A monitor for the data blocks (DBs) of Siemens S7 PLCs: define variables by
type and offset, read the DB at a poll interval, and watch the decoded values.

- `src/` is the library, verified with Verus:
  - `model/` — variable types, definitions, values, connection parameters;
  - `plc/parser.rs` — big-endian decoding of a variable from the DB bytes;
  - `plc/poller.rs` — read size, blink state, the decisions of the poll loop
    (connect after Connect, read while connected, reconnect after failures);
  - `plc/mock_data.rs` — deterministic test data;
  - `state.rs` — the shared state and the changes the UI and poller make;
  - `display.rs`, `draft.rs`, `text.rs` — the text shown and read by the UI;
  - `export.rs` — the C# class for `snap7dotnet ReadClass<T>` and its time stamp.
- `app/` is the program around it: the snap7 client (the mock client when
  `libs/snap7` holds no library for the platform), the poll thread, JSON
  persistence with serde, and the egui front end. A `Real` is shown with three
  decimals there, as the library holds no floating point (its values keep the
  IEEE 754 bit pattern).
- `tests/` exercises the library.
