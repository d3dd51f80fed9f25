# libplasmoid_updater

Updates KDE Plasma components (widgets, themes, color schemes, icons, wallpapers, window decorations)
from the KDE Store.

The library in `src/` holds the rules: what is asked of the store and how often, which part of an
unpacked archive is installed and how, how metadata is patched and repaired, in what order an update
takes place and how it is rolled back, and when a command may run and what it leads to. Its contracts
are proved with Verus. The program in `app/` reads and writes files, runs other programs and talks to the
network, as the library tells it.

- `api`: requests to the store, with their repetitions, and the pages of a listing
- `tree`: the search for what is to be installed in an unpacked archive
- `metadata`, `json`: patches of `metadata.json` and `metadata.desktop`
- `installer`: the plan of an installation, the course of an update with its way back, and the repair
  of components that lack their package structure
- `pipeline`: the course of a check, an update of all components and a repair
- `cli`, `config`: settings and commands
- `text`, `error`, `results`, `types`: what the others are made of
