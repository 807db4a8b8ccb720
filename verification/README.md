# screenclip

A screenshot overlay: every monitor is captured and covered by a window
showing the capture dimmed; the user drags out a selection, resizes it by
its edge handles, annotates it with text and rectangles, and saves or copies
it.

- `src/` is the library, verified with Verus: desktop and selection
  geometry, which window draws which overlay widget, the overlay background
  and its cache, annotation outlines, text hit-testing and the focus box,
  caret and selection highlight, composing the exported selection from the
  captured monitors, the pointer cursor, the command line, and the capture
  session's state machine.
- `app/` is the program around it: windows and events (winit), the UI
  toolkit (egui) and its rasteriser, glyph rendering (ab_glyph), screen
  capture, clipboard, file dialog, tray icon, global hotkey and autostart.
- `tests/` exercises the library.
