# ayeaye

The logic of a screen-to-GIF recorder for Linux: record a region of the
screen, edit the frames (delete, reorder, duplicate, crop, blur, annotate with
text) and export a GIF.

- `src/` is a library verified with Verus. `raster` holds RGBA images as plain
  bytes (cropping, overlaying and resampling go through the `image` crate); `editor` is the frame list
  and its edits; `capture` the desktop geometry and the capture loop's
  arithmetic; `encoder` what the GIF export checks and counts; `editor_screen`
  the filmstrip selection, thumbnail sizes and playback timing; `strings` the
  interface text in English and Brazilian Portuguese; `flow` how the
  application moves between its screens; `crop_tool`, `text_tool` and
  `recording_indicator` the integer parts of the editing tools and the
  recording indicator.
- `app/` is the egui application around it: windows, the capture thread
  (`xcap`), the GIF writer (`gifski`), file dialogs (`rfd`), the global F9
  hotkey, and the floating-point pixel effects (blur, text rendering).
- `tests/` exercises the library.

`app/` calls `xcap` for monitors and screen capture, but `xcap` is not listed
in `Cargo.toml`: with it the dependency tree grew past the 400 packages this
build allows, so the app does not build here until it is added back. `rfd`
is listed but needs the Wayland client library, which this machine lacks.
