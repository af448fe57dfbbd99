# horizon_event_system

The verified core of a game-server event and replication library.

`src/` holds the logic, each function with a Verus contract:

- `priority`, `lod`, `layers`: replication priorities, level-of-detail steps,
  the channel rules of replication layer sets and their property lists.
- `object_registry`: the registry of object types and their layers, with its
  registration counters.
- `queue`, `network`, `scheduler`: the per-player priority queue of updates,
  batching under a bandwidth budget, DEFLATE payload compression (through
  `flate2`), and the scheduling of object updates.
- `multicast`, `group_registry`: multicast groups and the registry that keeps
  player and channel indexes in agreement with them.
- `lod_rooms`: the members of a level-of-detail room and its nested rooms,
  by level.
- `virtualization`, `zone_clusters`: the bookkeeping of virtual zones (merge
  and split) and the clustering of overlapping zones into merge candidates.
- `subscription`: relationship, interest and combined subscription priorities.
- `config`: configuration defaults, validation rules and tuning for a machine.
- `dispatch`: the decisions of the event system (which error an emission
  meets, who receives it, what it adds to the statistics) and the per-object
  step of the replication tick.
- `events`, `path_router`: event keys, their categories, handler statistics,
  and the path router with its similarity search.
- `types`, `utils`, `plugin`, `shutdown`, `spatial_stats`, `zone_data`:
  identifiers (UUIDs through `uuid`), timestamps and build information, plugin
  errors, shutdown flags, spatial index statistics and example zone data.

Laws of the library are public proof functions named `law_*`.

`app/` holds what the verifier does not see: serializable copies of the data
types, error types with their messages, floating-point geometry, the R*-tree
index (`rstar`) and the asynchronous managers (`tokio`) around the verified
state. `tests/` exercises the library from outside.
