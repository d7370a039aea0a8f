# home_edge

The core of a small controller for a home, which the Home Assistant companion apps can talk to.
The library holds the rules, and Verus proves what the contracts say of them.

- `src/` is the library. `app_core` has the modes of operation, what each of them permits, and
  onboarding. `state_store`, `service` and `history_store` have the states of entities, the services
  that change them, and their readings. The modules that end in `_store` are the registries.
  `ha_api`, `ha_auth`, `ha_mobile`, `ha_webhook` and `ha_ws` answer the requests of the companion
  apps. `http` has what the pages show. `zigbee_integration` turns Zigbee devices into entities.
  `text`, `json`, `keyed`, `order`, `calendar`, `clock`, `epoch`, `ids` and `web` are what the
  others rest on.
- `tests/` runs the library.
- `app/` is the program around it: the command line, files, the network, templates, and what takes
  floating point, such as distances and the places of points in a chart.

Proof functions whose names start with `law_` state what holds of several operations together.
Functions marked `external_body` make a call into another crate; their contracts are believed, and
the comment above each says what of it.
