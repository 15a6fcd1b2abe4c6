# GoldCap Companion (verified core)

The desktop companion for the GoldCap addon: it fetches the per-realm price
import string and the whole-market region payload from goldcap.gg, writes
them into the `GoldCap_AppData` mini-addon, renders the player's buy runs as
`Runs.lua`, and uploads the addon's ledger when the companion is paired.

- `src/` is the library, verified with Verus: the rules about what is
  fetched, kept, written, uploaded, counted and shown live here with their
  contracts (the Lua renderers and escaping, the GCM1 header check and the
  region keep/write rules, the upload fingerprints and dedupe state, the
  pairing gate and the next step of each upload loop, the SavedVariables row
  rules, the ISO-8601 reader and the log timestamp, the sync status and tray
  label, the Status screen, the updater's wording and check step, the
  Config.wtf reader and the realm ordering). What stays outside is reading
  numbers out of the Lua VM (floats) and the lenient JSON number rounding.
- `app/` is a headless binary around it: files, HTTP, the Lua VM that reads
  SavedVariables, JSON, and the timer loop.
- `tests/` exercises the library on concrete values.
