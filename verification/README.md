# a653rs-router

A message router for ARINC 653 P4 hypervisors, written in Verus.

The router forwards virtual links between hypervisor ports and network
interfaces. Its decisions are verified: the configuration and the checks
made while building it, the route tables, the deadline-based round-robin
schedulers, the credit-based traffic shaper of the network partition, and
the framing of messages on a serial line.

## Layout

- `src/` is the verified library.
  - `config` – router configuration and its builder.
  - `router` – route tables, the router and message forwarding.
  - `scheduler` – deadline-based round-robin scheduling of virtual links.
  - `reconfigure` – route tables and schedules from named inputs and
    outputs.
  - `run` – the steps of the main loop: when a configuration is fetched,
    when it replaces the one in force, and when messages are forwarded.
  - `network`, `ports`, `error` – interfaces, port errors, the error type.
  - `uart` – COBS frames with a CRC-16/USB checksum on a serial line.
  - `network_partition` – the traffic shaper, scheduler, interfaces and
    forwarding decisions of the network partition.
  - `echo` – bookkeeping of the echo partitions.
  - `map`, `time`, `types` – a bounded ordered map, spans of time,
    identifiers.
- `tests/` exercises the library.
- `app/` is the router partition for Linux: configuration files, hypervisor
  ports, UDP and UART drivers, the forwarding loop, and the reads and
  writes of a forwarding round of the network partition.
