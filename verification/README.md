# server_naive

A NaiveProxy server agent: HTTP/2 and HTTP/3 CONNECT tunnels with padding, basic authentication
against a panel's users, rule-based routing, and UDP over TCP. Its rules, parsers and state
machines are a library verified with Verus; sockets, TLS, timers and the panel stay outside.

## Layout

- `src/` is the verified library.
  - `config`, `config_auto`: the settings, their checks, and how many connections a machine carries.
  - `handler`: which requests are let in, what the others are answered, what is dialed, and the
    way of a request to its tunnel and of a tunnel to its end.
  - `acl`: outbounds, and the router that follows rules.
  - `uot`: the wire format of datagrams over a tunnel, and the two loops that carry them.
  - `proxy_core`: addresses and their text, the private-address filter, lookups, live
    connections, and the two directions of a relay.
  - `transport`: the padding protocol, streams of HTTP/2 and HTTP/3, certificates and keys.
  - `server_runner`, `pingora_runner`, `quiche_runner`, `lifecycle`: how servers are set up, what
    their accept loops do, and how a node stops.
  - `text`, `time`, `buffer`, `error`: what the others build on.
- `tests/` runs the library.
- `app/` is the agent around it: the command line, files, sockets, and the loops that carry out
  what the state machines decide and hand back what happened.

## What is proved

Each function states what it returns for every input. The functions named `law_...` state what
holds across functions, for example:

- what the padding reader gets is what the padding writer was given, however the stream is cut;
- the router is asked only about the request of a known user, a tunnel opens only once its answer
  was sent, and whatever ends it, its connection is taken out again;
- a stream of datagrams shuts its write half down once, whatever ended it;
- a relay loses, invents and reorders nothing, and holds no more than its buffer; over a whole run
  only silence for the idle time ends it early, and a side is shut down exactly if that is asked;
- where private addresses are blocked, no route leads to one;
- an address, an authority and a datagram are read back from their wire or text form;
- cancelling a user's connections spares those of all others.

Calls into other crates (`base64`, `bytes`, `dashmap`, `humantime`, `rustls-pemfile`,
`tokio-util`) stand behind small functions whose contracts are believed; each says above it what
it claims of the call.
