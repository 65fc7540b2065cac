# minipot

A development toolchain for Minecraft Paper plugin authors: it prepares a
local Paper server from `minipot.yml`, resolves and pins plugins from GitHub,
Modrinth and Hangar in `minipot.lock`, runs the server (optionally with a
hot-swap JetBrains Runtime and a JDWP agent), syncs freshly built plugin jars
and drives Mineflayer bots.

## Layout

- `src/` — the verified library (Verus). Every function carries a contract,
  except `jbr::is_installed`, whose answer is the file system's (it is
  `installed_from` of the binary's location and of the disk's answer):
  - `text` — string helpers (trimming, searching, splitting, decimal
    rendering and parsing) specified over `Seq<char>`;
  - `lines` — the text lines of a byte buffer, as `BufRead::lines` yields
    them (UTF-8 decoding comes from std);
  - `java`, `jbr` — which Java release a Paper version needs, where the
    JetBrains Runtime lives and how its release tags are read;
  - `config`, `lock` — the project model and the lock file rules (when a
    pinned Paper build is reused, which plugin files become stale);
  - `downloadable`, `hash` — plugin sources, cache strategies, SHA-256
    checking (the digest itself comes from `sha2`, its hex form from `hex`)
    and the order in which a plugin file is taken from the plugins folder,
    the cache or a download;
  - `paper`, `sources/*` — the decisions taken on registry answers: which
    build, release, version and file is chosen, how rate limits are met, and
    the GitHub ETag cache (what is sent, and when a reply is answered from
    the cache);
  - `commands/*` — the pure parts of each command: launch arguments,
    startup command bookkeeping, restart decisions, `.gitignore` updates,
    pid files, and the plugin name read from a jar's plugin.yml (through the
    `zip` crate).
- `app/` — the command-line program around the library: argument parsing,
  HTTP, the file system, archives, processes and the serde copies of the
  library's types.
- `tests/` — tests of the library on concrete values.
