# okto

OKTO is a Discord bot about spaceflight: it lists upcoming launches, sends
launch reminders and scrub/outcome notifications, shows pictures from NASA and
answers questions about exoplanets.

## Layout

- `src/` is the verified library, checked by Verus. It holds what the bot
  decides and computes: the launch data and the filters over it, the reminder
  settings and which reminders and notifications are due, the texts of every
  page and embed, durations written out and read back, the command registry and
  its access rules, and the buttons, select menus and modals the bot builds.
  Contracts are stated over `Seq`, `Map` and views; the laws of the library
  (such as a duration reading back as the number it was written from) are
  public proof functions.
- `src/` calls three outside crates behind trusted wrappers: `regex` (payload
  filters), `url` (the host of a video link) and `rand` (which picture of a
  rover camera is shown).
- `tests/` runs the library on concrete values.
- `app/` is the program: the Discord client (serenity), the database (MongoDB),
  the HTTP services, the background loops and the wiring of every command.
