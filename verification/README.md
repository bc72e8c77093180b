# atlasfetch

A fetch tool: centred ASCII art between two powerline panels of system
information, with phone layouts, a monitor scene and an interactive
configurator.

## Layout

- `src/` is the library, written and proved with Verus. It holds everything
  the program decides: the palettes and their stretching over the logo, the
  panel and scene renderers, the layout engines, the phone cards, the parsers
  of what the system reports (`/proc`, `/sys`, helper commands), the command
  line dispatch, the event bus, the window space of the compositor and its
  key bindings, and the key handling of both configurators (`setup` for the
  phone wizard, `editor` for the desktop editor). Public functions state
  their results in their contracts, with two exceptions where the verifier
  cannot follow a boxed trait object: `layout_engine::engine_for` (which
  engine it returns) and `widget::Registry::from_fields` (only how many
  widgets it registers). The laws that tie several functions together are
  public proof functions next to them.
- `app/` is the program around it: argument parsing, reading the system and
  the configuration file, floating-point measurements, and the terminal
  user interfaces, which hand every key to the library and carry out what it
  answers.
- `tests/` runs the library on concrete values.

Calls into `unicode-width`, `regex` and a few `std` functions the verifier
has no specification for go through small trusted wrappers whose contracts
are stated next to them.
