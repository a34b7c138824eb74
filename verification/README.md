# localsend

File transfers between LocalSend peers over iroh, with the decisions verified
by Verus.

- `src/` is the verified library: addresses and tickets, the collection that
  lists the offered files, the steps of a download, discovery over multicast,
  and the requests of an application. Calls into `iroh`, `iroh-blobs`,
  `base64`, `serde_json` and `uuid` stand in small trusted functions whose
  contracts say what is relied upon.
- `app/` drives the library: endpoints, blob stores, sockets, JSON forms of the
  library's types, and access to Android's content URIs.
- `tests/` runs the library on concrete values, with the real crates linked.
