# breadlock

A session locker (`breadlock`) and a greetd greeter (`breadgreet`) for Wayland.
What the two programs decide is a library that [Verus](https://github.com/verus-lang/verus)
verifies; what talks to the system is ordinary Rust around it.

- `src/` is the library. `lock` holds the lock screen: the state that keys,
  attempts and timers act on, the password buffer, the bus commands, the
  surfaces, the background, and what a frame draws. `greet` holds the greeter:
  accounts, sessions, the conversation with greetd and the login window's state.
  `ui` holds what both share: settings, `.desktop` entries, colours, pictures and
  blending. `text` and `sort` are the string and sorting operations that the rest
  is built from.
- `tests/` runs the library on concrete values.
- `app/` is the programs: Wayland, EGL, PAM, D-Bus, GTK, sockets, files and the
  clock. Geometry and easing in floating point stay there too.

Every function of the library states what it does in its contract. What holds
across functions is stated and proved in the functions whose names begin with
`law_`: among others that nothing but the success of the attempt at hand unlocks
the screen, that an attempt that was given up cannot, that the compositor is told
to unlock only after the screen has faded, that the drifting wallpaper never
shows an edge, and that no session is started before greetd reports the login as
complete.

Times are nanoseconds since the program started, progress is a fraction of two
integers, and offsets of the background are 16.16 fixed-point numbers, so that
all of it can be stated exactly.
