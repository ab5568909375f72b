# arma_rs

A toolkit for writing Arma 3 extensions in Rust, with its core verified by Verus.

- `src/` is the verified library: the text format in which Arma passes values
  (`FromArma` for strings, integers with exponential notation, tuples, arrays
  and the unit loadout array), command routing through groups (`group:command`),
  the status codes and the output buffer of a call, the call context types,
  the feature flags, the retry and skip decisions of the callback thread, and
  and the decisions of the `FromArma`/`IntoArma` derives: the shape a struct
  takes, which attribute combinations are refused, and where a derived
  `FromArma` takes each field's value from (`plan_named_fields`,
  `plan_tuple_fields`). The derive macros themselves, which write that code
  for a struct at compile time, are not part of this crate. Each public
  function carries a contract, and the laws
  are proved there: a routed name reaches the command added under it, a
  written C string reads back as the text, and every integer, string literal,
  array and loadout is read back from the text Arma writes for it (for class
  names and strings without double quotes, commas or brackets), and a string
  value's text (`string_value`, which undoes one step of Arma's `""`
  escaping) gives back any string that `quote` wrote. That text
  is stated in `src/` as spec functions (`int_text`, `literal`, `array_text`,
  `loadout_text`, ...) and written by the verified `arma_text` methods of the
  loadout types; the general writer (`IntoArma` and `Value`'s display in
  `app/`) goes through `f64` numbers and is not verified against them.
- `app/` is the runtime around it: the C interface Arma calls, the callback
  thread, state containers, and `Value`, whose numbers are floating point.
- `tests/` runs the library on concrete inputs.
