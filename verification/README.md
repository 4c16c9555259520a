# lue

A live queue service: admins open queues, requesters join them (signed in
or as guests), and admins claim, resolve or deny the requests while
everyone sees the queue change over a websocket.

`src/` is the verified library. Its store holds accounts, sessions, queues,
archived queues, groups and site settings as plain vectors; every operation
is stated over a mathematical model of the store (`StoreModel`) and proved
against it with Verus.

- `model`, `views`, `store`: the data, its models, and lookups.
- `accounts`, `manage`, `entries`, `queue`, `schedule`: the operations on
  accounts, queues, groups, settings and requests.
- `render`, `dashboard`: what requesters and admins are shown.
- `protocol`: the websocket requests and answers, as a step from store and
  request to new store and messages.
- `sso`, `payload`: the Microsoft sign-in round trip and the texts carried
  in page addresses.
- `snapshot`: what is kept on disk and how it is restored.
- `route`, `client`: the browser's routes, display helpers, and the decisions of the
  queue page and the admin dashboard (what a server message does to the page,
  which request a button sends).
- `laws`: properties that span several operations.
- `clock`, `ids`, `password`, `text`, `utils`, `order`: time (`chrono`),
  identifiers (`uuid`), password hashes (`argon2`), text helpers and
  ordering.

`app/` is the server program around the library: the HTTP routes, the
websocket loop, the JSON files on disk and the calls to Microsoft.
