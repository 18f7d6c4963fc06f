# veila

The decisions of a screen locker as a verified library: what the daemon, the curtain that covers
the screens and the renderer behind it do, stated in contracts and proved with Verus.

- `src/common`: configuration layers, messages, secrets, lines, paths and time.
- `src/daemon`: password attempts, suspending while locked, sockets.
- `src/renderer`: frames, blending, crossfades, shared memory slots, picture caches, avatars, icons.
- `src/ui`: the prompt's state, text layout caches and what is drawn where.
- `src/curtain`: outputs and their surfaces, wallpapers, redraws, and when a session is unlocked.
- `app`: sockets, files, threads, Wayland and floating point around the library.
- `tests`: the library from outside.

Proof functions whose names begin with `law_` state what holds of several operations together.
