# cfs_telemetry

Telemetry and commanding for a spacecraft that flies NASA's core Flight System
(cFS): the CCSDS packets on the wire, the messages in them, a playback buffer that
never extrapolates, the ground station and the display on one side, the flight
application's decisions on the other.

Everything under `src/` is verified with Verus. No function there can panic or
overflow, each one's contract says exactly what it returns, and what holds of several
together is stated as a public proof function beside them. Nothing is trusted but
Verus and `vstd`.

## Layout

| Module | What it holds |
|---|---|
| `ccsds` | primary and secondary headers, packets, framing of a stream |
| `msg` | message IDs and their config, commands, housekeeping |
| `model` | vehicle state, the jitter buffer, what playback promises |
| `link` | counters, sequence gaps, the bounded queue, keepalive |
| `ground` | decoding what arrives, link health, outgoing commands |
| `vehicle` | the mode and survey sequencer |
| `flight` | the flight application: start-up, dispatch, the control cycle |
| `standin` | a stand-in for cFS: commands in, vehicle packets out once output is enabled |
| `capture` | recorded packets and their summary |
| `viz` | the display: sources, command loop, keys, panel, rig, recording |
| `anim`, `mappings` | how modes and link health look; three ways to drive a rig |
| `gltf` | the spacecraft model as a glTF document |
| `octets`, `text`, `numeral`, `args`, `clock` | what the others share |

`app/` is ordinary Rust: sockets and files, the calls into cFE, the scene, and
everything in floating point: attitude dynamics, reaction wheels, interpolation of
values, easing curves. `tests/` runs the library on concrete values.

## Units

Time is counted in ticks of 1/1,024,000,000 s, in which a cFE subsecond (1/65536 s)
and a microsecond are both whole. A single-precision value is carried as
its bits (`model::Single`), never computed with.

## Programs

`app/` is one program with a name for each tool as its first argument:

- `viz` draws the spacecraft from live telemetry and sends commands back
- `headless` prints what the ground station sees
- `fake-cfs` stands in for cFS
- `tlm-capture` records packets and sums up a recording
- `gltf-gen` writes the model that `viz` draws
- `anim-mappings` shows three ways to drive it side by side

A window needs bevy's windowing and rendering features (`bevy_winit`, `bevy_pbr`,
`bevy_render`, `bevy_core_pipeline`, `bevy_ui_render`, `png`) in addition to the ones
`Cargo.toml` names.
