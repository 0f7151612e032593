# NeoDock

An application dock for the [niri](https://github.com/niri-wm/niri) Wayland
compositor, whose decisions are verified with Verus.

## Layout

- `src/` — the verified library (`neodock`):
  - `services/niri` — the mirror of niri's windows and workspaces, how each
    compositor event changes it (`Niri::apply`, stated by
    `NiriModel::spec_apply`), the messages exchanged with niri, and laws
    that hold across events (`services/niri/laws.rs`).
  - `config` — the user settings and how a reload is merged and reported.
  - `models` — application entries: grouping windows by application,
    pinning, ordering, and their laws (`models/laws.rs`).
  - `widgets` — what each dock icon and view shows and does: tooltips,
    window indicators, click and scroll targets, menus, reveal and hide.
  - `order`, `text`, `maps`, `constants` — shared helpers.
- `tests/` — tests of the library on concrete values.
- `app/` — the GTK program around the library: windows, widgets, the
  configuration file, the niri socket and the event loop.

## Configuration

The dock reads `~/.config/io.github.lost-melody.NeoDock/config.toml` and
`style.css` in the same directory; both are reloaded when they change.
