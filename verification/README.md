# open_soundpad_core

A soundpad that mixes a microphone with uploaded sound clips into a virtual
audio cable. The logic is a Verus-verified library; the program around it
handles audio devices, threads, files and the terminal.

- `src/` — the verified library
  - `text` — white space, words, trimming, decimal numbers, substring search
  - `commands` — reading a typed line as a command and the reply it gets
  - `devices` — the microphone menu, the user's pick, finding the virtual cable
  - `ids` — sound ids (UUIDs) in canonical text form
  - `playback` — the active sound and what each pull of the clip stream gives
  - `resample` — gathering input into resampler chunks, channel conversion plans
  - `storage`, `sounds`, `settings`, `ui` — catalogue, upload arguments,
    buffer sizes, the screen text
- `app/` — the program: cpal streams, ring buffers, rubato, files, terminal
- `tests/` — tests of the library
