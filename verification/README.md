# kinugasa

The logic of the kinugasa motion-capture recording stack as a Verus library: every function in
`src/` carries a contract, and Verus proves every body but those of four small trusted wrappers
around std and `uuid` calls (`placeholder_entries`, `insert_placeholder`, `decode_utf8`,
`parse_uuid_text`), whose contracts it takes on trust, as it does the specifications given to
`String::push` and `Utf8Error::clone`.

- `auth`, `team`, `team_api`, `store`, `ids`, `studio`: the recording console's domain (teams,
  studios, studio events and logs), bearer authentication, the mocap-team API's checks, answers and
  the steps of creating a team, and reading stored rows.
- `srt`, `srt_element`: the SRT server source's stream-ID routing (accepted IDs and their pads),
  its properties, listener URI and socket options, and its decisions about callers and data.
- `rist`, `librist`: the RIST server source's settings and start checks, the outcomes of librist
  calls, log levels and profiles with their C values, and the log-callback bridge.
- `receiver_args`, `protocol_args`: the command lines of the receiver programs and of the protocol
  end-to-end harness.
- `e2e`: the protocol end-to-end harness: configuration, placeholder expansion, shell quoting,
  stream fingerprints, and the decisions of a run.
- `text`: string helpers with specifications (trimming, splitting, joining, number parsing).

`app/` holds what does I/O: the HTTP server and its MySQL store, the harness's process handling,
the librist logging callback, the SRT server source's GStreamer element and libsrt runtime, and
the receiver programs. `tests/` exercises the library.
