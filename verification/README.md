# smolgnet

A verified library for the GNet point-to-point protocol suite: wire codecs for
GDP, GCTL, GTS and CSS, the DLP link model with its virtual channels and flit
credit, the GLCP control exchange, bounded storage, endpoint routing, GTS
streams and tunnels, and the control planes of the static, dynamic and P4
routers and the static switch.

- `src/` is the library. Every function carries a contract over mathematical
  models (`Seq`, `Map`, spec functions and views) and is proved by Verus.
  Properties that span several functions stand as public `law_*` proof
  functions next to the code they speak of.
- `tests/` exercises the library on concrete values.
- `app/` holds what is host-specific: the Linux TAP device, the smoltcp IP
  device over the library's packet queues, the shared in-process virtual NIC
  pair and closure trace sinks.

Per-packet forwarding in the P4 routers is done by a P4 pipeline programmed
from the library's state; the library computes what is programmed and what
becomes of the pipeline's outputs.
