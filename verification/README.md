# terraform_settings_mapper

Reads Terraform remote state for one or more workspaces and extracts the
resource instances it holds, with their addresses, provider names, ids,
sensitive keys and attributes.

Layout:

- `src/` — the verified library (Verus):
  - `text.rs`: `str` operations (trimming, prefixes, the segment after the
    last separator) stated over `Seq<char>`;
  - `json.rs`: a JSON value as plain data, its compact text, key lookup;
  - `state.rs`: provider names, instance addresses, and the extraction of
    every resource instance of a decoded state file;
  - `config.rs`: workspace targets and how token, API URL and output file
    name are resolved;
  - `progress.rs`: the resume checkpoint as two sets of workspace keys, with
    the laws its operations keep;
  - `api.rs`: the Terraform Cloud client and the download of a workspace's
    state as a state machine, one response at a time;
  - `run.rs`: the decisions of a run over several workspaces (skip, fail or
    fetch; where output goes; how each outcome is recorded for resuming).
- `app/` — the command-line program: argument handling, reading the TOML
  configuration, the checkpoint file, the HTTP requests and JSON decoding.
- `tests/` — tests of the library.
