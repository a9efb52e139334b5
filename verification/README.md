# LifeView

LifeView simulates continuous cellular automata (Lenia-style rules) on a
toroidal grid, with a catalogue of shapes that can be placed on the grid and a
control panel to edit the rule.

- `src/` is the verified library. Cell values are a type parameter, so the
  bookkeeping of the simulator is proved for any numeric type:
  - `ivec`: integer cell coordinates;
  - `rule`: kernels and rules, and which kernels feed a channel;
  - `grid`: the torus geometry (indices, wrapping, neighbour indices, kernel
    neighbourhoods), grid creation and filling, clearing, the generation step (buffer upkeep,
    the kernels feeding each channel, the new state and the swap), kernel
    caches that every edit rebuilds, and shape placement, with laws such as
    index round trips and the idempotence and periodicity of wrapping;
  - `text`: characters, white space and string comparison;
  - `shapes`: genus names and their display names, shapes built from channel
    grids, ring outlines, and the catalogue grouped by category and genus;
  - `interface`: the editing operations of the control panel (changing the
    number of channels, adding a kernel, toggling neighbour counts one at a
    time or a frame's clicks at once).
- `app/` is the Bevy program around it: the real-valued growth functions and
  the value each generation step gives a cell, random initial states, shape files on disk, mouse input
  and the egui control panel.
- `tests/` exercises the library on concrete values.
