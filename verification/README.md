# paneru

The decision logic of a scrolling-strip window manager for macOS, verified
with Verus.

- `src/` is the verified library: Mach message framing and parsing
  (`msg`), the reactor's registration bookkeeping (`reactor`), per-workspace
  focus memory and focus decisions (`focus`), display bookkeeping
  (`display`), strip scrolling in whole pixels (`scroll`), and the workspace
  observer's subscriptions (`workspace`).
- `app/` is the unverified operating-system side: `mach_msg`, the kqueue
  thread, the Objective-C observer, and the floating-point scrolling physics.
  It calls the library for every decision.
- `tests/` exercises the library on concrete values.
