# mio

The heart of an event loop: registrations whose readiness any thread can set, a
queue that brings the ready ones to the thread that polls, and the rules by which
they are told of.

- `src/` is the library, verified with Verus. `state` packs a node's state in one
  word, `node` decides how that word changes, `model` is the queue as a
  mathematical value, `queue` is the queue itself, `registration` and `poll` are
  the handles. `steps` lists the steps that threads take, one for each access that
  others can see, and shows that no interleaving of them breaks the queue. `runs`
  shows what comes of such interleavings, and `laws` states what holds of the
  library as a whole.
- `app/` puts the queue behind a lock, for handles that threads share, and calls
  the selector and the awakener of the operating system.
- `tests/` runs the library.
