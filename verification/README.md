# launcher_mc

A launcher for a custom Minecraft 1.16.5 build: it fetches the game's
libraries from Maven Central and the LWJGL natives for the host, unpacks the
natives, builds the Java classpath, checks the player name and starts the
game offline. On start-up it asks GitHub for a newer launcher and hands the
download to an updater.

- `src/` is the verified library (Verus): the text operations it rests on
  (`text`), the directory layout and host facts (`launcher`), Maven
  coordinates, URLs and paths (`maven`), the classpath (`classpath`), the
  archive entry rules (`archive`), release and update decisions (`release`),
  HTTP status verdicts (`http`), the window's state machine (`session`) and
  the updater's decisions (`updater`).
- `app/` is the program: the egui window, files, network and processes. It
  hands each outcome to the library and does what the library answers.
- `tests/` runs the library on concrete values.
