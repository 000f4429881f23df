# satisfactory_map

A viewer of a world map's resource nodes, fracking wells and geysers. The
library in `src/` holds, with Verus proofs, the decisions the viewer makes:

- `resources`: the resource kinds and node purities.
- `constants`: marker colors per resource (parsed from their hex codes with
  egui) and marker shapes per purity.
- `view_options`: which targets (everything, geysers, a resource, a purity,
  the wells, one resource's nodes of one purity or its wells) are shown,
  fully, partly or not at all; showing and hiding them; keeping the plot
  legend in step. Its abstract model is `ViewOptionsModel`.
- `view_laws`: properties of the view options across operations.
- `plot_item`: the points of a plot item, the item under the cursor, whether
  an item is highlighted, the markers it draws, and the grouping of nodes into
  plot items.
- `plot_laws`: properties of what a plot item draws.
- `icons`: decoding icon images into RGBA buffers.

`app/` is the desktop program around it (eframe/egui): window, panels,
drawing of shapes, loading of the world, outline and icon files.

Not part of this project: node randomization, production statistics, share
links and startup URLs, and the data files (world, outline, icons). The
program reads the data files from the working directory; the world data types
in `app/game.rs` and the purity marker colors in `app/constants.rs` are this
program's own.
