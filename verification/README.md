# Synctus

Two people keep each other working: each sees whether the other is focusing, for
how long, how far from the day's goal, and whether they opened a time sink in the
middle of a round. What is shared is end-to-end encrypted; the relay in between
only forwards ciphertext.

The library under `src/` is written in Rust and verified with Verus: every
function states in its contract what it returns or changes, and the contracts are
proved. Outside crates (Argon2, HKDF, HMAC, XChaCha20-Poly1305, base64, hex and
random numbers) and a few functions of the standard library are called behind
items whose contracts are taken on trust; each says so in its comment.

## Layout

```
src/
  crypto        invite codes, room keys, sealed boxes
  proto         frames and base64
  model, config what is exchanged, and the settings
  client        the reconnecting engine, step by step
  store, dates  to-do list, pomodoro timer, the view of the peer
  focus         distraction detection
  sharing       what may leave the device
  bridge        the Android client, notify/sensors/tray/overlay/desktop the desktop one
  hub, conn     rooms and connections of the relay; limiter its rate limit,
                undelivered what dropped connections may still collect
  panel, web    the admin view of the relay; admin its messages
  service, manage, server_config   the management tool
  update        release checks
  text, debug, table, sorting, clock   primitives
tests/          runs the library
app/            sockets, files, threads, windows: ordinary Rust around the library
```

Laws that relate several functions are public proof functions in the module they
are about.
