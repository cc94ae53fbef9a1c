# frugalos_service

The service that runs on each server of a frugalos object storage cluster. It follows the
configuration of the cluster: it starts the devices of its server, gives segments their Raft nodes,
and clears away buckets that are taken out.

- `src/` is the library, verified with Verus. It holds the tables of the service and decides what
  each event asks for. Work that leaves the process is asked for by steps (`EventStep`, `PatchStep`,
  `DeletionStep`, `PollStep`, `StartStep`); what came of it is handed back.
  - `entity`: servers, devices, buckets, events, errors.
  - `numeral`, `node`, `lump`: how nodes are named, and which lumps belong to a bucket.
  - `device`: the start of a device, and those who wait for it.
  - `bucket`: buckets and their segments.
  - `service`: the tables and the events; `service::patch`, `service::deletion` and
    `service::poll` for what takes several steps.
  - `laws`: what holds of the tables; `laws::patches`, `laws::deletions`, `laws::devices` and
    `laws::rounds` for what holds from the first step to the last.
- `app/` drives the library: it polls the services around it, starts devices and nodes, and shares
  the table of buckets with clients.
- `tests/` runs the library on concrete values.
