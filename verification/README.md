# ce-serve

The HTTP edge of ce-net. It serves the site and each app's bundle over HTTP and puts the mesh bridge
into every page. A bundle is a manifest, from paths to content ids, in a content-addressed blob store;
the hub says which bundle a host has.

- `src/` is the library, verified with Verus: every decision the edge makes, each with a contract.
  - `text`, `path`, `request`: what a request asks for (storage key, media type, host, held content).
  - `html`, `reply`: the bridge in a page, and the answer that carries a file.
  - `table`, `bundle`, `serve`: which file of a bundle or of the local site answers a key.
  - `resolve`: what the hub is asked for, and the caches of hosts, manifests and files.
  - `json`, `publish`, `config`: what goes out to the hub and the blob store, and the settings.
  - `outcome`: what a request is answered in the end, and what holds of every answer.
- `tests/` runs the library on concrete values.
- `app/` is the program around it: it listens, asks the mesh and reads files.

The library trusts three things it does not prove: `String::push`, `String::from_utf8_lossy`, and the
way `serde_json` writes an object. Each is stated where it is declared, in `text`, `html` and `json`.
