# maxima

The core of Maxima, a launcher for EA games, written in Verus: the data it keeps and the
decisions it takes, each function with a contract that Verus proves.

## Layout

- `src/` — the verified library.
  - `library`, `content`, `gamesettings`, `gameinfo`: the owned games grouped into titles
    and sorted, the download queue, per-game settings and install records.
  - `zip`, `byte_buffer`, `downloader`, `exclusion`: the central directory of a game's
    archive, the ranges to fetch, and the files a user excluded.
  - `lsx`, `lsx_account`, `crypto`: the protocol between a game and the launcher, its
    handshake and encryption, and the replies it gives.
  - `ooa`: license requests and the license files games read.
  - `auth`, `auth_storage`: login queries, redirects and the saved accounts.
  - `launch`, `manifest`, `wine`, `native`, `bootstrap`, `hardware`, `cloudsync`,
    `service_layer`, `maxima`, `rtm`, `github`, `logging`, `wmi`: launching, install
    manifests, Proton prefixes, protocol registration, the bootstrap's command line, the
    machine fingerprint, cloud saves and service requests.
  - `text`, `search`, `assoc`, `pattern`: strings, searches, association lists and regular
    expressions used throughout.
- `tests/` — tests of the library on concrete values.
- `app/` — what surrounds the library: files, processes, network and the serialised
  forms of its records.

Calls into outside crates (`bytebuffer`, `openssl`, `aes`/`cbc`, `base64`, `hex`, `md5`,
`regex`, `globset`, `url`, `chrono`) go through small trusted functions whose contracts
state what those crates do; everything around them is verified.
