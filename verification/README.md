# wows_replays

A parser for World of Warships replay files, verified with Verus.

A replay is a container: JSON metadata, then a Blowfish-encrypted,
zlib-compressed stream of packets. The packets name entities, properties
and methods that the game's entity definition scripts (`.def` and
`alias.xml` files) describe. This library reads all of it, and states in
its contracts what each step gives.

## Layout

- `src/` — the verified library:
  - `wowsreplay` — the container, decryption and inflation of the stream;
  - `packet2` — the packet stream and the entity state it builds up;
  - `rpc/` — the type language of the definition scripts (`typedefs`),
    the definitions themselves (`entitydefs`) and the XML they are
    written in (`xml`);
  - `nested_property_path` — nested property updates;
  - `analyzer/` — analyses over decoded packets: the decoder, chat log,
    summary, survey counters, ship properties and the battle state (chat
    log, deaths, damage dealt, ships created);
  - `idxpkg` — the index files of the game's resource packages;
  - `broker` — the broker of live replay streams: who publishes under a
    username, who is subscribed to it, and what each is sent;
  - `game_params`, `version`, `investigate`, `survey_results` — game
    parameters, game versions and their data files, and the settings and
    tallies of the command line tools;
  - `bytes`, `text`, `sort` — byte readers, text helpers and a stable
    sort by key;
  - `decxxd` — byte dumps written as comma-separated decimal numbers.
- `tests/` — tests of the library on concrete inputs.
- `app/` — the command line tool: reads files, parses the JSON metadata,
  and prints.

Floating-point values travel through the library as their IEEE-754 bit
patterns; only `app/` turns them into numbers.
