# antenna_toolbox

The logic behind the antenna toolbox, written in Verus and proved against
its contracts.

- `src/` is the library. Each module states what its functions do over
  mathematical models (`Seq`, `Map`, `Set`, views of its types) and proves
  it; the public proof functions state the laws that hold across calls:
  what a read gives back of a write, what every step of a cache keeps, and
  so on.
  - `designs`: the registry of antenna designs and the look-up by id.
  - `kv`, `store`, `table`, `assoc`, `state`, `numbers`, `settings`: the
    `key=value` text the app saves its settings in, the store of saved
    texts, how numbers and flags are written and read, and the snapshot
    and restoring of the settings, with the law that they read back.
  - `tiles`, `tilefiles`, `ionmaps`: the map-tile cache with its
    eviction rule, the tiles a view needs, their files, addresses and
    decoding, and the cache of monthly ionospheric maps.
  - `debounce`, `vnalink`, `pairing`, `wires`: the state machines and
    rules of the editors, the solver's debounce, the VNA link and the
    tracking of current modes.
  - `patterns`: how a pattern file is recognised, and the slot that holds
    the pattern of one end of a path.
  - `rich`, `names`, `traces`, `material`, `hf`, `calendar`: text markup,
    file names, labels, the HF table's layout and the calendar.
- `tests/` runs the library on concrete values.
- `app/` is the thin program around it: disk and network access, the tile
  downloads and the drawing of marked-up text.
