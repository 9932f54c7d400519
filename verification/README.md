# rtop_rust

A terminal system monitor whose drawing logic is verified with Verus.

- `src/` is the verified library. Its centre is the bar chart widget
  (`widgets::barchart`): which bars fit in an area, how long each bar is in
  eighths of a cell, and the exact list of drawing steps (styles, cells,
  values, labels, block) that draws the chart. Every step that styles or
  fills cells (the chart's style, the block, the bars) is proved to stay
  inside the area it is drawn in, and so is every label and value text
  whose width is measured within the chart's 16-bit numbers. Around it
  stand the plain models it works on (`layout::Rect`, `style::Style`,
  `text::Line`, and `widgets::block::Block` with the area it leaves
  inside), the screen layout (`ui::render`) and the GPU statistics record
  (`nvml::NvGpuStat`).
- `tests/` runs the library against the real terminal buffer of `ratatui`.
- `app/` is the program: the terminal, the event loop, the key handling, the
  GPU and system probes, and the widget that applies the library's drawing
  steps to a `ratatui` buffer.
