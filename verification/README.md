# bevy_tinkerbox_editor

The verified core of a reflection-driven scene editor for bevy. The library
(`src/`) holds the editor's decisions, proved with Verus; `app/` is the bevy
glue that gathers plain values from the world, calls the library and applies
what it returns.

- `atlas_grid`: texture atlas grids; laying a grid out goes through bevy's
  `TextureAtlasLayout::from_grid`, and reading a layout back recovers the grid.
- `component_sets`: the chosen and ride-along components of an entity UI,
  kept in bevy's hash sets.
- `reflection`: construction plans for fresh values of reflected types, the
  checks on edited fields, and the enum variant switch.
- `ui_plan`: the entries that show a component, with their paths and names.
- `serialization`: proxy types used when saving and loading scenes.
- `resource_queue`, `hierarchy`, `transform_control`, `list_rows`, `text`:
  the smaller pieces of state and text the widgets rely on.
- `collections`: bevy's `HashMap` and `HashSet`, with what the library
  assumes of the methods it calls.
