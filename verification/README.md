# xdg-desktop-portal-cosmic

The logic of the COSMIC backend for the XDG desktop portals, verified with Verus.

- `src/` is the library. It decides what the portals answer: the dialogs and what follows from what
  the user does in them, print settings and page ranges, screenshots and how pictures are put
  together, shared screens and the formats of their streams, remote input, captured input and the
  consent to it, and what is known of outputs and windows. Every function states what it does in its
  contract. Laws that relate several functions stand beside them as public proof functions whose
  names begin with `law_`.
- `tests/` runs the library with the crates that it calls.
- `app/` is the service around it: the bus, the compositor, streams, printers and windows. It needs
  libcosmic, PipeWire, cpdb and libraries of the system beside the crates that `Cargo.toml` names.

Floating point stays outside of the library: colours are held by their bits, and lengths in hundredths
of a millimetre. Where pictures and positions are scaled, `rounding` computes in whole numbers what
single and double precision give.
