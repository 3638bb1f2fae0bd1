# yazelix_helix

The verified core of the Yazelix Helix fork, written in Verus.

* `src/` is the library. Its functions are verified, apart from three
  small trusted wrappers whose contracts are assumed: `text::push_char`
  (`String::push`), `languages::parse_languages_config` (`toml::from_str`
  and reading the values selection needs) and
  `grammar_prefetch::hash_of_json` (`serde_json::from_slice` and reading
  the `hash` member):
  * `bridge_env` decides whether the local editor action bridge starts and
    validates its settings (the switch, state directory, session and
    instance ids, auth token, default instance id);
  * `bridge_layout` places the bridge's directory, registry and token
    files and chooses its transport (Unix socket or Windows named pipe);
  * `bridge_protocol` checks requests against the schema version and auth
    token, answers refusals, and steps through serving one connection;
  * `languages` reads `languages.toml`, selects its active grammars and
    sorts them by name;
  * `grammar_source` and `grammar_prefetch` key each grammar source and
    choose how `nix` prefetches it and what its output gives;
  * `lock_entries` and `grammar_lock` build, merge and validate the grammar
    source lock.
* `app/` is the I/O around it: environment, files, sockets and named pipes,
  threads, `nix` processes, and the JSON formats of the bridge and the
  lock file.
* `tests/` exercises the library on concrete values.
