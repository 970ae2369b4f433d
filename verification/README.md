# portal

The logic of an RFID timing portal: it talks LLRP to Zebra readers, turns
what they report into chip reads, keeps reads and settings, answers a
control protocol, and uploads reads to a remote service. The functions in
`src/` are verified with Verus against the contracts written on them; the
few that call std or `rand` directly are marked `external_body`, and their
doc comments say what is taken on trust.

## Layout

- `src/llrp/` message and parameter headers, their names, and the requests
  built from them.
- `src/reader/` readers, the connection start-up exchange, the Zebra
  message parsers, message framing, the read window that turns sightings
  into reads, and antenna bookkeeping.
- `src/database/` the store of settings, reads, readers, remote services,
  participants and bib links, with the rules of the tables behind it.
- `src/control/` the settings the portal runs by, the control protocol
  (`socket/answer.rs` decides the answer to every request and what it
  changes in the store and in the list of running readers;
  `socket/readers.rs` that list; `socket/services.rs` saving a whole list of
  services; `socket/session.rs` places connections and times keepalives),
  sounds, and discovery on the local network.
- `src/processor.rs` the read saver: reads wait there until a turn of its
  loop writes them to the store.
- `src/remote/`, `src/network/`, `src/results/` uploads and the services
  they go to; `remote/uploader.rs` decides each turn of the upload loop.
- `src/notifier.rs`, `src/battery.rs`, `src/screen.rs` notifications, the
  battery watch and the character display.
- `app/` the program around the library: sockets, the database file, HTTP,
  threads. Its loops (saving reads, uploading, serving a connection) call the
  library once per turn and carry out what it decides.
- `tests/` tests of the library.

Laws that relate several functions are public proof functions named
`law_*`, next to the functions they speak of.

## The control protocol

Every request a client sends is decided by `answer_request`. Where a request
needs more than the store (connecting or disconnecting readers, uploading
reads by hand, reading or setting the clock, running the update script,
passing on a notification, shutting down) the library hands back what to do
and `app/` does it: it connects readers in threads of their own, posts the
reads and records what the service took, runs `date`/`hwclock` and the update
script on Linux, and sends notifications to the connected clients.

What the program does not do: it plays no sounds (the sound board is not
part of this code), it does not pass notifications on to the remote
service, and it drives no character display or buttons.
