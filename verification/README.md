# desktop_overlay

A desktop overlay for Wayland: a GTK4 layer-shell window of live system
readings (uptime, CPU, memory, disks, network rates, GPU sensors), whose
rows can be detached into floating windows singly or by section, and a snow
animation behind the desktop.

The logic is a Verus library with its contracts proved; the program around
it does the I/O and the drawing.

## Layout

- `src/` — the verified library
  - `text.rs`: decimal rendering, trimming, splitting, line and number parsing
  - `double.rs`: non-negative binary64 values in exact integers: conversion,
    division and product rounded as `f64` rounds, `{:.k}` rendering; signed,
    infinite and NaN values decoded from `f64` bit patterns and rendered as
    `{:.k}` renders them
  - `readings.rs`: GiB and percentage conversions, usage and speed lines
  - `gpu.rs`: the GPU reading: sysfs files of an AMD card, the driver tool's
    CSV line for NVIDIA, the choice of reader
  - `monitor.rs`: the monitor state between refreshes and every reading line
  - `dispatch.rs`: readers by name, as the widget description names them
  - `widget.rs`, `registry.rs`: widget rows and the dock/float state machine,
    the detach lock, drag gestures and the default row order
  - `snow.rs`: the snow window's switch and the flakes' random sequence
  - `tick.rs`: one monitoring tick and the label updates it makes
  - `layout.rs`: saving and restoring the layout
- `app/` — the GTK program: windows, gestures, drawing, sysinfo and file
  reading, JSON
- `tests/` — tests of the library on concrete values, many of them against
  what `std` computes with `f64`
