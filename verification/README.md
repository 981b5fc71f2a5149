# tattoy

The core logic of Tattoy, a text-based compositor for modern terminals, as a Verus library
with proved contracts, and a small command around it.

* `src/` is the verified library. Colours, timing, the GPU and the terminal emulator itself
  stay outside; the library holds what decides: how pixels land in terminal cells, how cells
  of layers are composited, how the palette screenshot is parsed, printed, saved and loaded,
  how input is routed, how keybindings and configuration reloads are handled, how bytes
  travel to the PTY, and what each tattoy shows (scrollbar, minimap, notifications, startup
  logo, random walker, background command, the plugins' particles).
* `tests/` runs the library on concrete values.
* `app/` is the `tattoy` command: palette screenshots in and TOML out, the saved palette
  printed back, and the inverter plugin's JSON lines.
