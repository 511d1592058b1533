# scrap_wayland

Screen capture on Wayland: the conversation with the desktop portal, the sessions and restore
tokens that come of it, the displays that are captured, and the frames that are handed out.

- `src/` is the library. All of it is verified with Verus. It takes and gives plain values; what
  happens on the bus, in the pipeline or on disk stays outside.
  - `portal`, `monitors`, `session`, `tokens`: who is asked for which grant, what is kept of it,
    and when it is given up.
  - `stream`, `display`, `capturable`: what the portal grants and what the compositor reports.
  - `cache`, `positions`, `search`, `cursor`, `sorting`, `filling`: where the captured displays
    are, if the portal does not say, and in which order they come.
  - `recorder`: what becomes of each sample of a stream.
  - `server`, `text`, `errors`: the rest.
  - `outside`: the calls into other crates and into std whose contracts are believed.
- `app/` is ordinary Rust around it: D-Bus, GStreamer, and the program that embeds the library.
- `tests/` runs the library on concrete values.
