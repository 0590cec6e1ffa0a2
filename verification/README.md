# bpmn_engine

A BPMN 2.0 process engine whose model, formats and execution rules are
written in Verus and proved against their contracts.

## Layout

- `src/` — the verified library.
  - `model/` — process definitions and their elements; the JSON model
    (`json.rs`); reading BPMN 2.0 XML from the events of quick_xml's reader,
    texts unescaped as quick_xml does and attribute values as written
    (`xml_read.rs`, `xml.rs`); writing every element and flow as the events
    of its writer (`xml_write.rs`), and the law that what is written is read
    back as the definition written (`xml_round_trip.rs`); format detection
    with its confidence levels (`format.rs`).
  - `engine/` — the execution context (variables, history, join tokens),
    condition expressions (`evaluator.rs`), ISO 8601 durations (`timer.rs`)
    and the engine's decisions between activities (`executor.rs`).
  - `elements/` — the activities of events, tasks and gateways.
  - `activity/`, `capability/`, `repository/` — activity results, the
    default activity factory, and error types.
  - `text.rs`, `words.rs`, `lists.rs`, `json_value.rs` — text, keyed
    sequences and JSON values with their specifications.
- `tests/` — tests of the library.
- `app/` — the runtime around the library: JSON text through serde, the
  asynchronous engine loop, listeners, plugins, repositories, and the
  numeric verdicts of conditions.

Each public function states what it returns in terms of spec functions over
views; the laws that span several functions are public proof functions
named `law_*`.
