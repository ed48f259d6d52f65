# cps_block_ua

User-Agent access control for the request middleware of a model gateway,
written in Verus.

- `src/` is the verified library.
  - `json.rs`: the JSON value that a configuration arrives as.
  - `config.rs`: modes, the configuration, its defaults and how it is read.
  - `regex_bridge.rs`: the calls into the `regex` crate, with their trusted contracts.
  - `text.rs`: exact character and byte helpers, and the call into std's UTF-8 decoder.
  - `request.rs`: headers, the model exemption and the screening of a User-Agent value.
  - `policy.rs`: building a policy and deciding on a request.
  - `middleware.rs`: what the middleware logs and whether a call goes on.
- `tests/` runs the library on concrete requests and configurations.
- `app/` is the plugin process: protocol, logging and the handshake.
