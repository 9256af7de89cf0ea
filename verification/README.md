# minime

The hardware-independent logic of the Minime handheld platform layer,
verified with Verus.

- `src/` — the verified library: the device-traits file format and parser
  (`values`, `traits`, `text`), the drawing canvas with its save/restore
  stack and the copy into frame memory (`display`), DRM output selection
  (`drm`), input-event translation (`input`), battery state (`battery`),
  and the control-file writes for backlight, LED, rumble, CPU speed and
  volume (`screen`, `power`, `audio`, `sysfs`, `device`), plus the
  stand-in platform (`mock`).
- `app/` — the device side: reading and writing files, input devices,
  the frame buffer, DRM ioctls and the async input loop.
- `tests/` — tests of the library on concrete values.
