# hud_renderer

Native overlays for a racing telemetry HUD: a lap timer, a timing tower and a track
radar, drawn in frameless always-on-top windows from the documents a local backend
serves over HTTP.

## Layout

- `src/` is the library, written in Verus and proved. It holds everything the
  overlays decide:
  - `json.rs`: the plain JSON tree the parsers read, and its lookups;
  - `lap_timer.rs`: the lap timer payload, its time and delta labels, the predicted
    position, and the controller that tracks sessions and laps;
  - `timing_tower.rs`: the tower payload, the stable ordering by position, the choice
    of the reference driver, the window of adjacent cars and the gaps to the
    reference;
  - `track_radar.rs`: the radar payload and the reference car's motion;
  - `history.rs`: the input overlay's rolling series of readings;
  - `options.rs`: the command-line options and the backend endpoints;
  - `presentation.rs`: the colours and cell texts of the tower;
  - `text.rs`, `error.rs`: string helpers and the parse errors.
- `tests/` runs the library on concrete documents.
- `app/` is the program around it: argument and environment reading, the HTTP
  fetches, the worker threads, the floating-point geometry of the radar and the
  painting with `eframe`.

## Running

```
hud lap-timer [--sample] [options] [backend-url]
hud timing-tower [--num-adjacent-cars N] [--show-tl-warns true] [backend-url]
hud track-radar [--range-meters 25] [--idle-opacity 0.3] [backend-url]
```

The backend URL defaults to `PNG_BACKEND_URL`, then `http://127.0.0.1:4768`.
