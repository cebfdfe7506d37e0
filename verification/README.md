# splot_sdwan

Declarative WireGuard mesh networking for OpenWRT routers, with its logic verified by Verus.
A single YAML file describes the routers, their zones and devices, roaming clients and the
services they expose; each router derives from it the `uci` commands for its own `network`,
`dhcp` and `firewall` configuration.

## Layout

- `src/` — the verified library.
  - `types/` — identifiers, locations, MAC addresses, IPv4 addresses and networks, ports and
    port ranges, `allowFrom` references, WAN targets; each parser is proved against a spec of
    what it accepts and returns.
  - `config.rs`, `entries.rs` — the configuration model and its lookups (WAN resolution,
    networks of a node, the services of the whole mesh). Maps are lists of `(name, value)`
    pairs built with `insert_entry`, which keeps names distinct; sets are built with
    `OneOrManyUnique::from_vec`, which keeps each value once; `WellFormed` states and checks
    both at every level of a configuration.
  - `validator/` — every check run before anything is generated: names, tags, references,
    entities, addressing, port collisions, WAN exposure. `validate_config` states exactly which
    errors and warnings a configuration yields, and the laws there state what a configuration
    without errors guarantees: subnets apart, addresses unique, local names apart from global
    ones and tags apart from every name (whatever the order of declaration), and no two
    services of a client or a device on a common port. `ValidationReport::sort` orders the
    findings stably by the place they point to.
  - `managers/` — the network, DHCP and firewall managers, which turn a configuration into
    `uci` batch commands; the laws there state that zones are zero-trust, that every rule is an
    explicit accept towards single hosts, and that every manager only writes sections it owns.
    A reference that resolves to no address gives no source.
  - `uci.rs`, `pipeline.rs` — `uci` batch commands, section builders, the delete commands
    derived from `uci show` output, and the pipeline that runs the managers.
- `app/` — the command-line program: argument parsing, environment, reading the YAML file,
  calling `wg` and `uci`, printing the report.
- `tests/` — the test suite, run against the compiled library.
