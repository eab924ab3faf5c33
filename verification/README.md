# glassbox

A music overlay that plays an album folder, draws the waveform of what plays
in the colors of the album cover, and shows the song as a rich-presence
status.

- `src/` is the verified library:
  - `tap` — the ring buffers that keep the latest samples of each channel,
    and the tap that spreads an interleaved stream over them;
  - `palette` — the waveform colors, from a median cut of the cover;
  - `cover` — the first cover file of the album that decodes, and its palette;
  - `song` — song titles, artist/album text and the presence status;
  - `player` — which files form an album, which song plays, when the status
    changes, and where each queued song ends;
  - `wayland` — the registry scan that finds the globals used to make the
    window let input through.
- `app/` is the program around it: window, audio output, file dialogs,
  tag reading, the presence connection and the drawing code.
- `tests/` run the library on concrete values.
