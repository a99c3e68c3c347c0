# nuboxido_warp

A CloudEvents echo service for Knative, as a verified library and a thin
warp program.

- `src/` is the library, verified with Verus: the routing of requests, the
  answers of the health probes, the JSON body of the environment endpoint,
  and the conversions between a CloudEvent and its JSON object, with the
  laws that hold across them (`src/laws.rs`).
- `app/` is the program: it runs the warp server, reads requests, moves
  events between `cloudevents::Event` and the library's model, lets serde
  read and write the message type, and sends the answers.
- `tests/` runs the library on concrete events and values.

Endpoints: `POST /` reads a message out of a CloudEvent (its attributes,
its `something` extension and its data) and answers with the event of that
message, whose type has `.echoed` appended; other extensions, and data
without a content type, do not come back; `GET /env` answers with the environment variables as a
JSON object; `GET /health`, `/health/started`, `/health/ready` and
`/health/live` answer 200 with an empty body when the service is healthy. A
request that no endpoint answers gets 404, an unparsable event 400, and an
event that cannot be answered 500.
