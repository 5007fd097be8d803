# Senamby core

The verified core of Senamby, a desktop application that runs control loops
on plants: a plant has sensor and actuator variables, a driver plugin that
reads and writes the device, and controller plugins that compute outputs. The
plugins are Python classes kept in a workspace directory.

`src/` is the library, written and proved with Verus:

- `models`, `json`, `keyed`, `text`, `error`: the data, a JSON model filled
  by serde_json's parser, keyed lists viewed as maps, text helpers and errors.
- `plugin_store`, `plant_store`: the in-memory stores, unique by id and by
  name (ignoring case and surrounding whitespace).
- `plugin_service`, `plugin_import`: checking, building and reading plugins.
- `plant_validation`, `plant_service`, `controller_params`,
  `controller_config`, `plant_edits`: building plants and changing them.
- `plant_import`, `import_service`: opening plant files and importing them.
- `workspace`: the places of things in the workspace.
- `runtime_service`, `runtime_bootstrap`, `runtime_environment`,
  `runtime_monitor`: what connecting, running and stopping a plant decides.
- `laws`: properties of the library as a whole.

Floating-point values travel through the library as their bit patterns.

`app/` holds what the library leaves to its host: files on disk, Python
processes, serde shapes of the data, and the statistics of recorded samples.
