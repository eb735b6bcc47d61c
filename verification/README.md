# mat

A command line for Matter devices, with its logic verified in Verus.

- `src/` is the library. Its rules stand there with contracts: commands and
  their aliases, the operations they become and what goes over the wire, the
  conversations with a node, groups and their keys, the taking in of devices,
  the change of the identity protection key, diagnosis, and the exchange with
  the daemon.
- `tests/` runs it.
- `app/` is the program around it: arguments, files, sockets and the controller.
  It also converts between the library's types and those of the controller, and
  leaves to the controller what only that can compute: names and numbers of
  clusters, the shape of some reports, and cryptography.

Work that waits on the network is a state machine in the library: it names the
next action, the program carries the action out and hands back what came of it.
What holds of several steps together is stated in the proof functions whose
names begin with `law_`.

JSON text is read and written by `serde_json`. Its calls, and the standard
library's quoting of a string, are the only code that the proofs take on trust.
