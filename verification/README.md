# kopuz_components

The decision, ordering and formatting logic behind the kopuz music player's
screens and settings, written in Verus: every function in `src/` carries a
contract, and Verus proves each body against it.

## Layout

- `src/` — the verified library, one module per concern:
  - `config` — the stored settings and their defaults;
  - `queue` — the play queue: inserting dropped tracks (also in shuffle
    order), the listed order, the up-next sections and their durations;
  - `sorting` — column sorting of track lists (stable, proved to be a
    permutation in order) and the album and folder track lists;
  - `selection` — the selection mode of track lists;
  - `track_menu`, `row_clicks` — a track row: the entries of its "⋯" menu
    and which action a click on an entry means, its file-type badge, and
    what clicks on its title, its album name or an album card's play button do;
  - `showcase` — album and playlist headers: minutes, disc headers, row
    numbers, offline state;
  - `playlists`, `playlist_sync` — playlist folders, reordering, and walking
    a server playlist page by page without repeats;
  - `remote` — server item paths, favourites, cover URLs, artist names;
  - `lyrics`, `now_playing` — lyric line layout, the background vocals in
    progress, the full-screen view's cover and lyric fetches;
  - `timefmt`, `text`, `scripts`, `downloads`, `style`, `sharing`,
    `navigation`, `sidebar`, `themes`, `menu`, `metadata`, `scroll` — smaller
    pieces.
- `tests/` — tests on concrete values, run against the compiled library.
- `app/` — what is not verified: the settings file and offline copies on
  disk, the wall clock, and the pixel and time arithmetic that is done in
  floating point; it hands plain values to the library.

## Outside crates

`uuid` builds device and folder ids from random bytes that `app/` draws, `serde_json` writes JavaScript string
literals, `base64` encodes cover images for data URLs; each call sits behind a
small trusted function whose contract states what the crate documents.
`serde` derives the settings file format in `app/`.
