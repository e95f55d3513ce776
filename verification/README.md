# vgm_render

Renders YM2612/YM3438 VGM (and gzip-compressed VGZ) streams on ymfm's YM3438
emulation into seven isolated stereo streams (FM channels 1-6 and the DAC),
interleaved into one 14-channel 16-bit PCM file.

`src/` is the verified library:

- `stream`, `header`, `seek`: reading the file, its header and the seek option;
- `plan`: the command interpreter, deciding which register writes reach each
  isolated part and how long each wait lasts;
- `timing`: turning 44.1 kHz waits into native chip frames without drift;
- `chip` (trusted), `render`: driving ymfm through `ymfm_sys`;
- `pcm`, `mix`: gain, clipping, seek skipping, peak and interleaving;
- `loop_point`: where the loop point lies on the timeline;
- `input` (gzip through `flate2`);
- `laws`: properties spanning several of these.

`app/main.rs` reads `/in/input.vgm`, prints what it found and writes
`/out/ym3438_output.pcm`.
