# GotaTun throughput benchmark

Measures the throughput of a GotaTun tunnel between two hosts with iperf3. The controller
deploys its own executable to the peer, starts an endpoint of the tunnel on each host,
waits until the tunnel answers, measures, and takes everything down again.

- `src/` is the library, verified with Verus: shell quoting, configuration, addresses,
  keys, command lines, and the stages of the controller and of an endpoint. It does no
  input or output: it says what to do next and is told what came of it.
- `app/` is the program: it runs commands, reads their output, makes the tunnel device and
  hands events to the library.
- `tests/` runs the library on concrete values.

The controller reads `BENCHY_PEER` (`mole@10.0.0.2`), `BENCHY_ALICE_ADDRESS` (`10.0.0.1`),
`BENCHY_BOB_ADDRESS` (`10.0.0.2`), `BENCHY_INTERFACE` (`bench0`), `BENCHY_WIREGUARD_PORT`
(`51821`), `BENCHY_IPERF_PORT` (`5201`), `BENCHY_DURATION` (`30` seconds) and `BENCHY_MTU`
(`1440`); the defaults hold where a variable is unset or empty.
