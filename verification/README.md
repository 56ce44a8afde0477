# simeis

Simeis is a space trading game played through an HTTP API: players hire crew, buy ships
and modules, fly their ships between stations and planets and trade resources.

`src/` is the game's rule library, verified with Verus:

- `crew`, `module`, `industry`: crew members, ship modules and industry units, what each
  needs, and how their names are read;
- `galaxy`: positions, scans of planets and stations, the closest planet to a position;
- `ship`: ship identifiers and travel orders;
- `player`: player identifiers and keys, name uniqueness, module purchases, shipyards;
- `game`: the game loop's decisions and what a tick does to a fleet;
- `shard`: how keys are spread over the shards of a sharded map;
- `text`, `json`: reading the player key from a query string, and values from JSON
  objects by dotted path.

`app/` is the server around it: the HTTP endpoints, the game thread, the locks, and every
quantity held as a floating-point number (money, wages, prices, distances, fuel, hull
wear).

`tests/` exercises the library.
