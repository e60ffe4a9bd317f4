# vnt_api

What a VNT client shows of its virtual network: routes, peers, devices, traffic and errors, and the
steps by which it joins. The library under `src/` is verified with Verus; the bridge to the Flutter
application and to the core of the client is ordinary Rust under `app/`.

- `api`: a client that has joined its network, and the questions that can be put to it
- `config`: the configuration of the user and that of the core
- `core_api`: what the core reports
- `devices`: this device, the other clients, their NATs
- `errors`: errors and the kinds under which they are reported
- `ipv4`: addresses and networks
- `logging`: in which order the log is set up, and with which files
- `opening`: in which order a client is opened, and what is reported meanwhile
- `routes`: the routes to the server and to the clients
- `startup`: joining a network, step by step, and what is reported of it
- `text`: trimming, searching, decimal numbers
- `traffic`: amounts of bytes and their texts

The functions whose names start with `law_` are proofs of what holds of the library as a whole.
