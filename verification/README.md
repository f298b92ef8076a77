# slitscan

The television shows the live camera, but each displayed frame replaces only
one line of it: a single pixel column, one column further right every frame,
starting over at the left edge when it runs off the right. Everything the line
is not on holds whatever second it was last written in, so the screen is one
column of now beside a minute of the recent past.

```
slitscan                                   # the webcam, fullscreen, left to right
slitscan --sweep top-to-bottom             # a horizontal line, sweeping down
slitscan --device /dev/video2 --capture 1280x720
```

Esc quits. `--sweep` takes `left-to-right`, `right-to-left`, `top-to-bottom`
or `bottom-to-top`; the line is always perpendicular to its travel.

## Layout

`src/` is the library, written in Verus: what is decided about the piece, each
decision with a contract, and the laws that relate them.

- `sweep`: where the writing line is on each frame, which frame each pixel of
  the field holds, and how a camera of one shape fills a field of another.
- `ratio`: fractions in lowest terms.
- `args`: the command line.
- `camera`: what ffprobe and ffmpeg are run with, the steps of opening a
  camera, and which of the frames that have arrived is shown.
- `pipe`: how ffmpeg's output, which carries no framing, is cut into frames.
- `field`: the passes that draw a frame, and how a texture is read back.
- `app`: the surface, the window, the steps of displaying a frame, and when the
  piece stops.
- `text`: the string operations that the others are stated over.

`app/` is the installation around it: the processes, the window and the GPU.
`tests/` runs the library on concrete values, the field on a small software
GPU.

Three things are taken on trust, each stated where it is called: the row
alignment that wgpu gives its copies, that wgpu's answer whether a format is
sRGB depends on the format alone, and that the way a string is quoted depends
on the string alone.
