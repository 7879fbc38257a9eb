# hpsdr

The logic of an openHPSDR transceiver program, verified with Verus: the packets
of protocols 1 and 2 in both directions, the state of their senders and streams,
sample queues, the life of a connection, a rig control server's commands, a
teleprinter's code and framing, the RX-888's decimator and firmware loader, an
in-memory recorder, and the rules around a few helper programs and meters.

- `src/` is the library. Contracts speak of mathematical models of its types;
  what holds across functions is stated in the public proof functions `law_*`.
- `tests/` runs the library on concrete values.
- `app/` holds the threads, sockets, USB transfers, processes and floating-point
  signal processing around it.

Numbers that need floating point, such as gains and audio samples, reach the
library as integers or as bit patterns that it only carries.
