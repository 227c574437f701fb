# firefly_runtime

The logic of the Firefly Zero runtime as a Verus library: what the host functions
do with the app's calls, how images, QR codes, and screenshots are drawn and
encoded, how the system menu reacts to input, how scores and badges are kept,
how the frame rate is paced, and how devices find each other, agree on an app,
and stay in sync frame by frame in multiplayer. Every function states its
behaviour in `requires`/`ensures` contracts that Verus proves.

Layout:

- `src/`: the verified library, one module per concern (`frame_buffer`, `image`,
  `graphics`, `qr`, `png`, `menu`, `input`, `scores`, `stash`, `friends`,
  `ring`, `net`, `connector`, `connection`, `scene`, `pacing`, `stats`,
  `runtime`, `linking`, ...). The public `law_*` proof functions state the
  properties that hold across calls, such as what a ring buffer gives back after
  an insert, or where a drawn image lands on the screen.
- `tests/`: tests of the library on concrete values.
- `app/`: the host around the library: the file system and clock of a desktop,
  the wasmi host functions, the frame loop, the UDP network for multiplayer, the
  postcard wire format, and the floating-point parts (battery charge curve, fuel
  variance).
