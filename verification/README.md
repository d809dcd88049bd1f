# nvmon

A terminal monitor for NVIDIA GPUs: graphs of utilization, memory, temperature, power and
fan speed, counters, and a process list that can be sorted, filtered and used to kill a
process. What the monitor shows and how it reacts to keys is a library verified with Verus.

- `src/` is the verified library. `Monitor` in `monitor.rs` holds the state of every GPU:
  it takes in readings and key events and gives pictures and actions.
- `app/` is the program around it: arguments, the event loop, the readings from NVML, and
  the rendering of pictures with ratatui.
- `tests/` runs the library on concrete values.

Samples are whole numbers throughout the library, power in milliwatts. They are small enough
to be exact as doubles, which they become when a graph is rendered.

The library trusts what the doc comments say of `String::push`, `String::pop`,
`str::to_lowercase`, the text of a duration, `unicode_width`, the CUDA version numbers of
`nvml_wrapper`, and the layout of `ratatui`.
