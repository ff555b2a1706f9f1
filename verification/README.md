# spectra

A terminal music visualizer. The library in `src/` holds the parts whose
behaviour is proved with Verus; `app/` is the program around it (audio
capture, FFT analysis, colour ramps and drawing into the terminal).

- `styles` — visual styles and themes, the style cycle and its laws.
- `controls` — the key handling of the frame loop, bars per frame, frame split,
  status bar and frame period.
- `audio` — the sample ring buffer that the audio callback fills and the
  frame loop reads.
- `layout` — bar widths, gaps and centring; bar and mirror glyphs; the
  bars-over-waveform split.
- `bars` — the cells that the bars, blocks and mirror styles paint, with
  their placement inside the area and the mirror symmetry.
- `halfcell` — a raster with two half-cells per terminal cell.
- `matrix` — free columns and spawn attempts for the rain (one drop per
  column); `rng` — the xorshift generator and the
  rain glyphs.
- `history` — the spectrogram's scrolling history.
- `dsp` — which spectrum bins each bar averages.
