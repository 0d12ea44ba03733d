# Finupdate

A system update frontend for image-based desktops: it runs `uupd`, shows what changes,
and switches between the builds of an image.

- `src/` is the library: every decision the program makes, with its contract, verified
  by Verus. Tags, dates, families, image references, the state of an update, and what
  each page shows.
- `app/` is the program around it: the GTK widgets, the network, the host's processes
  and files.
- `tests/` runs the library on concrete values.

Dates come from `chrono` and JSON from `serde_json`; upper case letters, white space
beyond ASCII and the presence of a file are asked of the standard library. The few
functions that make these calls say in their contracts what is relied on.
