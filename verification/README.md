# dockshell

The backend of a desktop manager for local and remote Docker engines, split
in two:

- `src/` is the verified library (Verus): the saved connection profiles
  (upsert by id, lookup, removal, with their laws), how a connection is
  reached, which container actions exist, the rows the frontend renders
  from engine replies (containers, images, volumes cross-referenced with
  their users, networks, inspect details, prune results), stream items
  (events, pull progress, log lines, exec output), the compose guard and
  command line, the built-in network guard, and the registry of in-flight
  background tasks.
- `app/` is the unverified shell around it: the profile and settings files,
  the OS keyring, the Docker Engine API over bollard, the `docker compose`
  process, and the command surface the frontend invokes.
- `tests/` runs the library on the values the engine and the frontend use.
