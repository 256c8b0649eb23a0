# sodium_launcher

The decision logic of the Sodium Minecraft launcher, verified with Verus.

- `src/` is the verified library:
  - `platform`: OS names, native-jar keys, classpath separators, the game
    directory and the choice of the Java executable.
  - `rules`: the `allow`/`disallow` rules that select a library per OS.
  - `maven`: Maven coordinates to jar paths, and Fabric download URLs.
  - `install`: version lookup, what installation downloads, progress reports.
  - `launch`: the role of each library at launch, the classpath, the Java
    command line.
  - `paths`: file names and extensions of paths, by the Unix or Windows
    rules (jar entries, mod files).
  - `auth`: the Microsoft token requests, the status of their answers, the
    authorization code of the browser redirect and the page answered to it.
  - `model`: what the launcher reads from the JSON documents.
  - `text`: string helpers.
- `app/` holds the Tauri commands: files, network, processes and JSON parsing,
  calling the library for every decision.
- `tests/` runs the library on concrete values.
