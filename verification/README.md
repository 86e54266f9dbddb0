# kairos

A clock for the moment that counts: it keeps a display, a metronome and a countdown aligned
with standard time, and says how far off it can be at most.

- `src/` is the library, written in Verus and verified throughout. It holds the monotonic clock
  and its timebase, NTP packets and the bounds that an exchange gives, the window of samples and
  which of them a model is made from, the sampling schedule, what the display shows, the beat
  plan, the countdown to a target, the calibration of a reaction, the theme and its overrides.
- `app/` is the program around it: sockets, threads, files, floating-point arithmetic, and on
  macOS the panel, the menu, the sound and the glow.
- `tests/` runs the library on concrete values.

Floating-point numbers pass through the library as bit patterns (`float::Float64`). They are
compared and put in order there; what is computed from them, the program computes and hands
over as integers or as text.

A time model is an offset, a drift rate and a half-width that is a hard bound: every sample is
an interval that the true offset lies in, and samples that cannot all be true lose the one that
fits worst. What is proved, and of which inputs, stands in the contracts and in the public proof
functions of each module.
