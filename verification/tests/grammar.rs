use yazelix_helix::grammar_lock::{
    build_lock, collect_validation_errors, join_strings, merge_lock, select_sources,
    unique_prefetch_sources, GrammarLockFile, LOCK_VERSION,
};
use yazelix_helix::grammar_prefetch::{prefetch_source, PrefetchPlan};
use yazelix_helix::grammar_source::{
    archive_url, parse_github, GrammarErrorKind, GrammarLockEntry, GrammarSource, PrefetchKey,
    PrefetchKind,
};
use yazelix_helix::languages::{active_grammar_sources, active_sources_of, GrammarDecl, LanguagesConfig};
use yazelix_helix::lock_entries::LockEntries;

fn src(name: &str, git: &str, rev: &str) -> GrammarSource {
    GrammarSource { name: name.to_string(), git: git.to_string(), rev: rev.to_string() }
}

fn decl(name: Option<&str>, git: Option<&str>, rev: Option<&str>) -> GrammarDecl {
    GrammarDecl {
        name: name.map(str::to_string),
        git: git.map(str::to_string),
        rev: rev.map(str::to_string),
    }
}

fn names(v: &[GrammarSource]) -> Vec<String> {
    v.iter().map(|s| s.name.clone()).collect()
}

fn hashes_for(sources: &Vec<GrammarSource>) -> Vec<(PrefetchKey, String)> {
    unique_prefetch_sources(sources)
        .unwrap()
        .into_iter()
        .map(|(key, source)| (key, format!("sha256-{}", source.name)))
        .collect()
}

#[test]
fn parse_github_urls() {
    let (o, r) = parse_github("https://github.com/tree-sitter/tree-sitter-rust").unwrap();
    assert_eq!((o.as_str(), r.as_str()), ("tree-sitter", "tree-sitter-rust"));
    let (o, r) = parse_github("https://github.com/a/b/").unwrap();
    assert_eq!((o.as_str(), r.as_str()), ("a", "b"));
    let (o, r) = parse_github("https://github.com/a/b/tree/main").unwrap();
    assert_eq!((o.as_str(), r.as_str()), ("a", "b"));
    let e = parse_github("https://github.com/onlyowner").unwrap_err();
    assert_eq!(e.kind, GrammarErrorKind::InvalidGithubUrl);
    assert_eq!(e.message(), "invalid GitHub grammar URL: https://github.com/onlyowner");
    assert!(parse_github("https://gitlab.com/a/b").is_err());
}

#[test]
fn archive_urls() {
    assert_eq!(
        archive_url("https://codeberg.org/grammar/tree-sitter-x//", "abc").as_deref(),
        Some("https://codeberg.org/grammar/tree-sitter-x/archive/abc.tar.gz")
    );
    assert_eq!(
        archive_url("https://git.sr.ht/~u/tree-sitter-y", "r1").as_deref(),
        Some("https://git.sr.ht/~u/tree-sitter-y/archive/r1.tar.gz")
    );
    assert_eq!(archive_url("https://github.com/a/b", "r"), None);
    assert_eq!(archive_url("https://gitlab.com/a/b/", "r"), None);
}

#[test]
fn keys_entries_and_plans() {
    let gh = src("rust", "https://github.com/tree-sitter/tree-sitter-rust", "r1");
    let key = gh.prefetch_key().unwrap();
    assert_eq!(key.kind, PrefetchKind::Github);
    assert_eq!(key.identity, "tree-sitter/tree-sitter-rust");
    assert_eq!(key.rev, "r1");
    assert!(key.sparse_checkout.is_empty());
    let e = gh.lock_entry("h").unwrap();
    assert_eq!(e.fetcher, "github");
    assert_eq!(e.owner.as_deref(), Some("tree-sitter"));
    assert_eq!(e.repo.as_deref(), Some("tree-sitter-rust"));
    assert_eq!(e.url, None);
    assert_eq!(e.hash, "h");
    match prefetch_source(&gh).unwrap() {
        PrefetchPlan::Github { owner, repo, rev } => {
            assert_eq!((owner.as_str(), repo.as_str(), rev.as_str()), ("tree-sitter", "tree-sitter-rust", "r1"))
        }
        other => panic!("unexpected {other:?}"),
    }

    let cb = src("x", "https://codeberg.org/g/x/", "r2");
    let key = cb.prefetch_key().unwrap();
    assert_eq!(key.kind, PrefetchKind::Archive);
    assert_eq!(key.identity, "https://codeberg.org/g/x/archive/r2.tar.gz");
    let e = cb.lock_entry("h").unwrap();
    assert_eq!(e.fetcher, "archive");
    assert_eq!(e.url.as_deref(), Some("https://codeberg.org/g/x/"));
    let plan = prefetch_source(&cb).unwrap();
    assert_eq!(
        plan.nix_args(),
        vec!["store", "prefetch-file", "--json", "--unpack", "https://codeberg.org/g/x/archive/r2.tar.gz"]
    );
    assert_eq!(
        plan.failure_message("boom"),
        "nix archive prefetch failed for https://codeberg.org/g/x/archive/r2.tar.gz: boom"
    );
    assert_eq!(plan.missing_hash_message(), "nix store prefetch-file output missing hash");

    let git = src("y", "https://gitlab.com/u/y", "r3");
    let key = git.prefetch_key().unwrap();
    assert_eq!(key.kind, PrefetchKind::Git);
    assert_eq!(key.identity, "https://gitlab.com/u/y");
    assert_eq!(git.lock_entry("h").unwrap().fetcher, "git");
    let plan = prefetch_source(&git).unwrap();
    assert_eq!(
        plan.nix_args(),
        vec!["run", "nixpkgs#nix-prefetch-git", "--", "--json", "--url", "https://gitlab.com/u/y", "--rev", "r3"]
    );
    assert_eq!(plan.failure_message("e"), "nix prefetch failed: e");
    assert_eq!(plan.missing_hash_message(), "nix-prefetch-git output missing hash");

    let gh_plan = prefetch_source(&gh).unwrap();
    assert_eq!(
        gh_plan.nix_args(),
        vec!["run", "nixpkgs#nix-prefetch-github", "--", "--json", "--rev", "r1", "tree-sitter", "tree-sitter-rust"]
    );
    assert_eq!(gh_plan.missing_hash_message(), "nix-prefetch-github output missing hash");
}

#[test]
fn sparse_sources_use_git() {
    let wiki = src("wikitext", "https://github.com/santhoshtr/tree-sitter-wikitext", "w1");
    assert_eq!(wiki.sparse_checkout(), Some(vec!["src".to_string()]));
    let key = wiki.prefetch_key().unwrap();
    assert_eq!(key.kind, PrefetchKind::Github);
    assert_eq!(key.sparse_checkout, vec!["src".to_string()]);
    let e = wiki.lock_entry("h").unwrap();
    assert_eq!(e.fetcher, "github");
    assert_eq!(e.sparse_checkout, Some(vec!["src".to_string()]));
    let plan = prefetch_source(&wiki).unwrap();
    assert_eq!(
        plan.nix_args(),
        vec![
            "run",
            "nixpkgs#nix-prefetch-git",
            "--",
            "--json",
            "--url",
            "https://github.com/santhoshtr/tree-sitter-wikitext",
            "--rev",
            "w1",
            "--sparse-checkout",
            "src"
        ]
    );
    let rpm = src("rpmspec", "https://gitlab.com/cryptomilk/tree-sitter-rpmspec", "p");
    assert!(rpm.sparse_checkout().is_some());
    assert!(src("rpmspec", "https://gitlab.com/other/tree-sitter-rpmspec", "p").sparse_checkout().is_none());
}

#[test]
fn active_sources_filter_and_sort() {
    let config = LanguagesConfig {
        only: None,
        except: Some(vec![Some("skip".to_string()), None]),
        grammars: Some(vec![
            decl(Some("zig"), Some("https://github.com/a/zig"), Some("1")),
            decl(Some("skip"), Some("https://github.com/a/skip"), Some("1")),
            decl(None, Some("https://github.com/a/anon"), Some("1")),
            decl(Some("nosrc"), None, Some("1")),
            decl(Some("norev"), Some("https://github.com/a/norev"), None),
            decl(Some("ada"), Some("https://github.com/a/ada-2"), Some("2")),
            decl(Some("Zed"), Some("https://github.com/a/Zed"), Some("1")),
            decl(Some("ada"), Some("https://github.com/a/ada-1"), Some("1")),
        ]),
    };
    let v = active_grammar_sources(&config).unwrap();
    assert_eq!(names(&v), vec!["Zed", "ada", "ada", "zig"]);
    // Stable: the two `ada` grammars keep their file order.
    assert_eq!(v[1].git, "https://github.com/a/ada-2");
    assert_eq!(v[2].git, "https://github.com/a/ada-1");

    let only = LanguagesConfig {
        only: Some(vec![Some("zig".to_string()), Some("ada".to_string())]),
        except: Some(vec![Some("ada".to_string())]),
        grammars: config.grammars.clone(),
    };
    assert_eq!(names(&active_grammar_sources(&only).unwrap()), vec!["zig"]);

    let none = LanguagesConfig { only: None, except: None, grammars: None };
    assert!(active_grammar_sources(&none).unwrap().is_empty());
}

#[test]
fn unique_prefetches() {
    let sources = vec![
        src("a", "https://github.com/o/shared", "r"),
        src("b", "https://github.com/o/shared/", "r"),
        src("c", "https://github.com/o/shared", "other"),
        src("d", "https://gitlab.com/x", "r"),
    ];
    let u = unique_prefetch_sources(&sources).unwrap();
    assert_eq!(u.len(), 3);
    assert_eq!(u[0].1.name, "a");
    assert_eq!(u[1].1.name, "c");
    assert_eq!(u[2].1.name, "d");
    let bad = vec![src("a", "https://github.com/x", "r")];
    assert_eq!(unique_prefetch_sources(&bad).unwrap_err().kind, GrammarErrorKind::InvalidGithubUrl);
}

#[test]
fn build_lock_outcomes() {
    let sources = vec![src("a", "https://github.com/o/a", "r1"), src("b", "https://gitlab.com/b", "r2")];
    let hashes = hashes_for(&sources);
    let lock = build_lock(&sources, &hashes, &vec![]).unwrap();
    assert_eq!(lock.version, LOCK_VERSION);
    assert_eq!(lock.grammars.get("a").unwrap().hash, "sha256-a");
    assert_eq!(lock.grammars.get("b").unwrap().fetcher, "git");
    assert!(lock.grammars.get("c").is_none());

    let e = build_lock(&sources, &hashes, &vec!["x failed".to_string(), "y failed".to_string()])
        .unwrap_err();
    assert_eq!(e.kind, GrammarErrorKind::PrefetchFailed);
    assert_eq!(e.message(), "grammar source prefetch failed:\nx failed\ny failed");

    let mut partial = hashes;
    partial.truncate(1);
    let e = build_lock(&sources, &partial, &vec![]).unwrap_err();
    assert_eq!(e.kind, GrammarErrorKind::MissingPrefetchHash);
    assert_eq!(e.message(), "missing prefetch hash for grammar 'b'");
}

#[test]
fn built_lock_validates_clean() {
    let sources = vec![
        src("a", "https://github.com/o/a", "r1"),
        src("b", "https://gitlab.com/b", "r2"),
        src("c", "https://git.sr.ht/~u/c", "r3"),
    ];
    let lock = build_lock(&sources, &hashes_for(&sources), &vec![]).unwrap();
    let errors = collect_validation_errors(&sources, Some(&lock), "/p/lock.json").unwrap();
    assert!(errors.is_empty(), "{errors:?}");
}

fn entry(fetcher: &str, rev: &str, owner: Option<&str>, repo: Option<&str>, url: Option<&str>) -> GrammarLockEntry {
    GrammarLockEntry {
        fetcher: fetcher.to_string(),
        hash: "h".to_string(),
        owner: owner.map(str::to_string),
        repo: repo.map(str::to_string),
        rev: rev.to_string(),
        sparse_checkout: None,
        url: url.map(str::to_string),
    }
}

#[test]
fn validation_findings() {
    let sources = vec![
        src("a", "https://github.com/o/a", "r1"),
        src("b", "https://gitlab.com/b", "r2"),
        src("c", "https://codeberg.org/u/c", "r3"),
        src("d", "https://gitlab.com/d", "r4"),
        src("m", "https://gitlab.com/m", "r5"),
    ];
    let mut grammars = LockEntries::new();
    grammars.insert("a".to_string(), entry("git", "old", Some("x"), Some("a"), None));
    grammars.insert("b".to_string(), entry("github", "r2", None, None, Some("https://gitlab.com/b")));
    grammars.insert("c".to_string(), entry("archive", "r3", None, None, Some("https://elsewhere")));
    grammars.insert("d".to_string(), entry("git", "r4", None, None, Some("https://gitlab.com/other")));
    grammars.insert("zz".to_string(), entry("git", "r", None, None, Some("u")));
    let lock = GrammarLockFile { grammars, version: 7 };
    let errors = collect_validation_errors(&sources, Some(&lock), "/p").unwrap();
    assert_eq!(
        errors,
        vec![
            "unsupported lock version 7; expected 1",
            "missing lock entries: m",
            "stale lock entries: zz",
            "a: lock rev old != languages.toml rev r1",
            "a: expected github fetcher",
            "a: github owner/repo drift",
            "b: expected git fetcher",
            "c: archive url drift",
            "d: git url drift",
        ]
    );
    let missing = collect_validation_errors(&sources, None, "/p/grammar_sources.lock.json").unwrap();
    assert_eq!(missing, vec!["missing lock file: /p/grammar_sources.lock.json"]);

    let bad_sources = vec![src("a", "https://github.com/broken", "r")];
    let mut g = LockEntries::new();
    g.insert("a".to_string(), entry("github", "r", None, None, None));
    let lock = GrammarLockFile { grammars: g, version: 1 };
    let e = collect_validation_errors(&bad_sources, Some(&lock), "/p").unwrap_err();
    assert_eq!(e.kind, GrammarErrorKind::InvalidGithubUrl);
}

#[test]
fn selection_and_merge() {
    let sources = vec![src("a", "https://gitlab.com/a", "1"), src("b", "https://gitlab.com/b", "1")];
    let all = select_sources(sources, &vec![]).unwrap();
    assert_eq!(names(&all), vec!["a", "b"]);
    let picked = select_sources(all, &vec!["b".to_string(), "zz".to_string()]).unwrap();
    assert_eq!(names(&picked), vec!["b"]);
    let e = select_sources(picked, &vec!["zz".to_string()]).unwrap_err();
    assert_eq!(e.kind, GrammarErrorKind::NoMatchingGrammars);
    assert_eq!(e.message(), "no matching grammars selected");

    let mut old = LockEntries::new();
    old.insert("a".to_string(), entry("git", "old-a", None, None, Some("u")));
    old.insert("b".to_string(), entry("git", "old-b", None, None, Some("u")));
    let mut fresh = LockEntries::new();
    fresh.insert("b".to_string(), entry("git", "new-b", None, None, Some("u")));
    fresh.insert("c".to_string(), entry("git", "new-c", None, None, Some("u")));
    let merged = merge_lock(
        Some(GrammarLockFile { grammars: old, version: 0 }),
        GrammarLockFile { grammars: fresh, version: 1 },
    );
    assert_eq!(merged.version, 1);
    assert_eq!(merged.grammars.get("a").unwrap().rev, "old-a");
    assert_eq!(merged.grammars.get("b").unwrap().rev, "new-b");
    assert_eq!(merged.grammars.get("c").unwrap().rev, "new-c");
    assert_eq!(merged.grammars.name_list(), vec!["a", "b", "c"]);

    let mut only = LockEntries::new();
    only.insert("x".to_string(), entry("git", "r", None, None, Some("u")));
    let kept = merge_lock(None, GrammarLockFile { grammars: only, version: 1 });
    assert_eq!(kept.grammars.name_list(), vec!["x"]);
}

#[test]
fn lock_entries_read_after_write() {
    let mut m = LockEntries::new();
    m.insert("a".to_string(), entry("git", "1", None, None, None));
    m.insert("a".to_string(), entry("git", "2", None, None, None));
    assert_eq!(m.get("a").unwrap().rev, "2");
    assert_eq!(m.name_list(), vec!["a"]);
    let pairs = m.into_pairs();
    assert_eq!(pairs.len(), 1);
}

#[test]
fn join_strings_separates() {
    assert_eq!(join_strings(&vec![], ", "), "");
    assert_eq!(join_strings(&vec!["a".to_string()], ", "), "a");
    assert_eq!(join_strings(&vec!["a".to_string(), "b".to_string()], ", "), "a, b");
}

#[test]
fn active_sources_from_toml_text() {
    let text = r#"
[use-grammars]
except = ["skip", 3]

[[language]]
name = "rust"
scope = 1.5

[[grammar]]
name = "zig"
source = { git = "https://github.com/a/zig", rev = "1" }

[[grammar]]
name = "skip"
source = { git = "https://github.com/a/skip", rev = "1" }

[[grammar]]
name = "local"
source = { path = "/src/local" }

[[grammar]]
name = 7
source = { git = "https://github.com/a/num", rev = "1" }

[[grammar]]
name = "ada"
source = { git = "https://github.com/a/ada", rev = "2" }
"#;
    let v = active_sources_of(text).unwrap();
    assert_eq!(names(&v), vec!["ada", "zig"]);
    assert_eq!(v[0].git, "https://github.com/a/ada");
    assert_eq!(v[0].rev, "2");

    let only = "[use-grammars]\nonly = [\"zig\"]\n[[grammar]]\nname = \"zig\"\nsource = { git = \"g\", rev = \"r\" }\n[[grammar]]\nname = \"ada\"\nsource = { git = \"g\", rev = \"r\" }\n";
    assert_eq!(names(&active_sources_of(only).unwrap()), vec!["zig"]);

    assert!(active_sources_of("").unwrap().is_empty());
    let e = active_sources_of("[[grammar]\nname = ").unwrap_err();
    assert_eq!(e.kind, GrammarErrorKind::InvalidLanguagesToml);
    assert!(!e.message().is_empty());
}

#[test]
fn prefetch_outcomes() {
    let archive = prefetch_source(&src("x", "https://codeberg.org/g/x", "r2")).unwrap();
    assert_eq!(
        archive.prefetch_outcome(false, b"{}", "boom"),
        Err("nix archive prefetch failed for https://codeberg.org/g/x/archive/r2.tar.gz: boom".to_string())
    );
    assert_eq!(
        archive.prefetch_outcome(true, br#"{"hash":"sha256-abc","path":"/nix/store/x"}"#, ""),
        Ok("sha256-abc".to_string())
    );
    assert_eq!(
        archive.prefetch_outcome(true, br#"{"hash":5}"#, ""),
        Err("nix store prefetch-file output missing hash".to_string())
    );
    assert_eq!(
        archive.prefetch_outcome(true, br#"{"storePath":"/nix/store/x"}"#, ""),
        Err("nix store prefetch-file output missing hash".to_string())
    );
    let bad = archive.prefetch_outcome(true, b"not json", "").unwrap_err();
    assert!(!bad.is_empty());
    assert_ne!(bad, "nix store prefetch-file output missing hash");

    let git = prefetch_source(&src("y", "https://gitlab.com/u/y", "r3")).unwrap();
    assert_eq!(git.prefetch_outcome(false, b"", "e"), Err("nix prefetch failed: e".to_string()));
    assert_eq!(
        git.prefetch_outcome(true, br#"[1]"#, ""),
        Err("nix-prefetch-git output missing hash".to_string())
    );
    assert_eq!(git.prefetch_result(Ok(Some("h".to_string()))), Ok("h".to_string()));
    assert_eq!(
        git.prefetch_result(Ok(None)),
        Err("nix-prefetch-git output missing hash".to_string())
    );
    assert_eq!(git.prefetch_result(Err("bad json".to_string())), Err("bad json".to_string()));
}
