# fractal_synaesthesia

A music-driven Mandelbrot visualiser. Songs are analysed for beats, pitch,
loudness and spectral features, and user-defined mappings turn those
features into zoom, rotation and layer effects of a deep-zoom fractal
renderer, shown live or exported to video.

## Layout

- `src/` is the library, written in Verus. It holds the integer and decision
  logic of the program, each function with a contract that Verus proves:
  - `audio/`: analysis settings, how samples are cut into analysis frames and
    three-second windows, and which frame matches the playback position;
  - `rendering/`: the rows each render thread draws, which layers share an
    algorithm implementation, what a layer does to a pixel's colour, dynamic
    render quality, the stable ordering of palette points, the reference
    orbit texture layout, and the labels of the menus;
  - `exporting/`: the frame-by-frame export state machine, raw frame
    conversion, intermediate file names and the encoder command lines;
  - `text.rs`: decimal text of numbers; `types/`: factorials, binomial
    coefficients and powers of `i` used by complex exponentiation.
- `tests/` runs the library on concrete values.
- `app/` is the program around the library: windowing, shaders, audio
  playback and decoding, floating-point colour and fractal arithmetic, file
  and process I/O.

Verify with Verus on `src/lib.rs`; the library's public proof functions
(`lemma_*`) state the properties that hold across its functions.
