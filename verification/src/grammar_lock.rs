//! Building, merging and validating the grammar source lock.
//!
//! Prefetching runs outside: the caller takes the distinct prefetches from
//! [`unique_prefetch_sources`], runs each, and hands the hashes and the
//! failures to [`build_lock`].

use vstd::prelude::*;

use crate::grammar_source::{
    archive_url, archive_url_spec, github_parts, github_prefix, invalid_github_message,
    is_src_only_grammar, lemma_archive_url_not_github, lemma_lock_entry_records_source,
    lock_entry_spec, parse_github, source_key, strings_view, GrammarError, GrammarErrorKind,
    GrammarSource, GrammarSourceView, LockEntryView, PrefetchKey,
    PrefetchKeyView,
};
use crate::languages::sources_view;
use crate::lock_entries::LockEntries;
use crate::text::{concat_strs, decimal, decimal_string, has_prefix, join_path, join_path_str};

verus! {

/// The lock file format version this code writes and accepts.
pub const LOCK_VERSION: u32 = 1;

/// A grammar source lock: the entry of each grammar and the format version.
#[derive(Debug)]
pub struct GrammarLockFile {
    pub grammars: LockEntries,
    pub version: u32,
}

/// Where the lock file lives under the project root, with the path
/// style of the platform (`windows` or not).
pub fn lock_path(project_root: &str, windows: bool) -> (p: String)
    ensures
        p@ == join_path(project_root@, "grammar_sources.lock.json"@, windows),
{
    join_path_str(project_root, "grammar_sources.lock.json", windows)
}

/// Where `languages.toml` lives under the project root, with the path
/// style of the platform (`windows` or not).
pub fn languages_path(project_root: &str, windows: bool) -> (p: String)
    ensures
        p@ == join_path(project_root@, "languages.toml"@, windows),
{
    join_path_str(project_root, "languages.toml", windows)
}

// ---------------------------------------------------------------------
// Distinct prefetches

/// The abstract value of a list of keyed sources.
pub open spec fn keyed_view(v: Seq<(PrefetchKey, GrammarSource)>) -> Seq<
    (PrefetchKeyView, GrammarSourceView),
> {
    v.map_values(|p: (PrefetchKey, GrammarSource)| (p.0@, p.1@))
}

/// `k` is the key of one of the pairs.
pub open spec fn key_listed(ks: Seq<(PrefetchKeyView, GrammarSourceView)>, k: PrefetchKeyView) -> bool {
    exists|i: int| 0 <= i < ks.len() && #[trigger] ks[i].0 == k
}

/// The distinct prefetch keys of the first `n` sources, each with the
/// first source that has it; or the first key failure.
pub open spec fn unique_prefix(s: Seq<GrammarSourceView>, n: int) -> Result<
    Seq<(PrefetchKeyView, GrammarSourceView)>,
    (GrammarErrorKind, Seq<char>),
>
    decreases n,
{
    if n <= 0 {
        Ok(Seq::empty())
    } else {
        match unique_prefix(s, n - 1) {
            Err(e) => Err(e),
            Ok(prev) => match source_key(s[n - 1]) {
                None => Err((GrammarErrorKind::InvalidGithubUrl, invalid_github_message(s[n - 1].git))),
                Some(k) => if key_listed(prev, k) {
                    Ok(prev)
                } else {
                    Ok(prev.push((k, s[n - 1])))
                },
            },
        }
    }
}

fn find_key(pairs: &Vec<(PrefetchKey, GrammarSource)>, key: &PrefetchKey) -> (r: bool)
    ensures
        r == key_listed(keyed_view(pairs@), key@),
{
    let mut i: usize = 0;
    while i < pairs.len()
        invariant
            i <= pairs.len(),
            forall|k: int| 0 <= k < i ==> #[trigger] keyed_view(pairs@)[k].0 != key@,
        decreases pairs.len() - i,
    {
        if pairs[i].0.same_as(key) {
            assert(keyed_view(pairs@)[i as int].0 == key@);
            return true;
        }
        i = i + 1;
    }
    false
}

/// The distinct prefetches the sources need, each with the first source
/// that needs it, in source order.
pub fn unique_prefetch_sources(sources: &Vec<GrammarSource>) -> (r: Result<
    Vec<(PrefetchKey, GrammarSource)>,
    GrammarError,
>)
    ensures
        match r {
            Ok(v) => unique_prefix(sources_view(sources@), sources@.len() as int) == Ok::<
                Seq<(PrefetchKeyView, GrammarSourceView)>,
                (GrammarErrorKind, Seq<char>),
            >(keyed_view(v@)),
            Err(e) => unique_prefix(sources_view(sources@), sources@.len() as int) == Err::<
                Seq<(PrefetchKeyView, GrammarSourceView)>,
                (GrammarErrorKind, Seq<char>),
            >(e@),
        },
{
    let mut out: Vec<(PrefetchKey, GrammarSource)> = Vec::new();
    let mut i: usize = 0;
    assert(keyed_view(out@) =~= Seq::<(PrefetchKeyView, GrammarSourceView)>::empty());
    while i < sources.len()
        invariant
            i <= sources.len(),
            unique_prefix(sources_view(sources@), i as int) == Ok::<
                Seq<(PrefetchKeyView, GrammarSourceView)>,
                (GrammarErrorKind, Seq<char>),
            >(keyed_view(out@)),
        decreases sources.len() - i,
    {
        assert(sources_view(sources@)[i as int] == sources@[i as int]@);
        let key = match sources[i].prefetch_key() {
            Ok(key) => key,
            Err(e) => {
                proof {
                    lemma_unique_prefix_err_stays(sources_view(sources@), i as int + 1, sources@.len() as int);
                }
                return Err(e);
            },
        };
        if !find_key(&out, &key) {
            let ghost before = out@;
            out.push((key, sources[i].duplicate()));
            assert(keyed_view(out@) =~= keyed_view(before).push((key@, sources@[i as int]@)));
        }
        i = i + 1;
    }
    Ok(out)
}

proof fn lemma_unique_prefix_err_stays(s: Seq<GrammarSourceView>, n: int, m: int)
    requires
        1 <= n <= m,
        unique_prefix(s, n) is Err,
    ensures
        unique_prefix(s, m) == unique_prefix(s, n),
    decreases m - n,
{
    if n < m {
        lemma_unique_prefix_err_stays(s, n, m - 1);
    }
}

// ---------------------------------------------------------------------
// Building a lock

/// `parts` joined with `sep` between consecutive parts.
pub open spec fn join_with(parts: Seq<Seq<char>>, sep: Seq<char>) -> Seq<char>
    decreases parts.len(),
{
    if parts.len() == 0 {
        Seq::empty()
    } else if parts.len() == 1 {
        parts[0]
    } else {
        join_with(parts.drop_last(), sep) + sep + parts.last()
    }
}

/// Joins strings with a separator.
pub fn join_strings(parts: &Vec<String>, sep: &str) -> (r: String)
    ensures
        r@ == join_with(strings_view(parts@), sep@),
{
    let mut r = String::new();
    let mut i: usize = 0;
    while i < parts.len()
        invariant
            i <= parts.len(),
            r@ == join_with(strings_view(parts@).take(i as int), sep@),
        decreases parts.len() - i,
    {
        proof {
            let t = strings_view(parts@).take(i + 1);
            assert(t.drop_last() =~= strings_view(parts@).take(i as int));
            assert(t.last() == parts@[i as int]@);
        }
        if i > 0 {
            r.append(sep);
        } else {
            assert(strings_view(parts@).take(0) =~= Seq::<Seq<char>>::empty());
        }
        r.append(parts[i].as_str());
        i = i + 1;
    }
    assert(strings_view(parts@).take(parts.len() as int) =~= strings_view(parts@));
    r
}

/// The hash recorded for `k`: that of the first pair with this key.
pub open spec fn hash_for(h: Seq<(PrefetchKey, String)>, k: PrefetchKeyView) -> Option<Seq<char>>
    decreases h.len(),
{
    if h.len() == 0 {
        None
    } else if h[0].0@ == k {
        Some(h[0].1@)
    } else {
        hash_for(h.drop_first(), k)
    }
}

fn find_hash<'a>(hashes: &'a Vec<(PrefetchKey, String)>, key: &PrefetchKey) -> (r: Option<&'a String>)
    ensures
        match r {
            Some(h) => hash_for(hashes@, key@) == Some(h@),
            None => hash_for(hashes@, key@) is None,
        },
{
    let mut i: usize = 0;
    assert(hashes@.skip(0) =~= hashes@);
    while i < hashes.len()
        invariant
            i <= hashes.len(),
            hash_for(hashes@, key@) == hash_for(hashes@.skip(i as int), key@),
        decreases hashes.len() - i,
    {
        assert(hashes@.skip(i as int)[0] == hashes@[i as int]);
        if hashes[i].0.same_as(key) {
            return Some(&hashes[i].1);
        }
        assert(hashes@.skip(i as int).drop_first() =~= hashes@.skip(i + 1));
        i = i + 1;
    }
    None
}

/// The message when no prefetched hash belongs to a grammar.
pub open spec fn missing_hash_message(name: Seq<char>) -> Seq<char> {
    "missing prefetch hash for grammar '"@ + name + "'"@
}

/// The lock entries of the first `n` sources, a later source replacing an
/// earlier one of the same name; or the first failure.
pub open spec fn lock_prefix(s: Seq<GrammarSourceView>, h: Seq<(PrefetchKey, String)>, n: int) -> Result<
    Map<Seq<char>, LockEntryView>,
    (GrammarErrorKind, Seq<char>),
>
    decreases n,
{
    if n <= 0 {
        Ok(Map::empty())
    } else {
        match lock_prefix(s, h, n - 1) {
            Err(e) => Err(e),
            Ok(m) => {
                let src = s[n - 1];
                match source_key(src) {
                    None => Err((GrammarErrorKind::InvalidGithubUrl, invalid_github_message(src.git))),
                    Some(k) => match hash_for(h, k) {
                        None => Err((GrammarErrorKind::MissingPrefetchHash, missing_hash_message(src.name))),
                        Some(hash) => match lock_entry_spec(src, hash) {
                            Some(e) => Ok(m.insert(src.name, e)),
                            None => Err((GrammarErrorKind::InvalidGithubUrl, invalid_github_message(src.git))),
                        },
                    },
                }
            },
        }
    }
}

/// The message when prefetching failed.
pub open spec fn prefetch_failed_message(failures: Seq<Seq<char>>) -> Seq<char> {
    "grammar source prefetch failed:\n"@ + join_with(failures, "\n"@)
}

/// The grammars of the lock built from `sources` and the prefetch results,
/// or the failure: any prefetch failure first, then the first source
/// without a key or a hash.
pub open spec fn built_lock(s: Seq<GrammarSourceView>, h: Seq<(PrefetchKey, String)>, failures: Seq<Seq<char>>) -> Result<
    Map<Seq<char>, LockEntryView>,
    (GrammarErrorKind, Seq<char>),
> {
    if failures.len() > 0 {
        Err((GrammarErrorKind::PrefetchFailed, prefetch_failed_message(failures)))
    } else {
        lock_prefix(s, h, s.len() as int)
    }
}

proof fn lemma_lock_prefix_err_stays(s: Seq<GrammarSourceView>, h: Seq<(PrefetchKey, String)>, n: int, m: int)
    requires
        1 <= n <= m,
        lock_prefix(s, h, n) is Err,
    ensures
        lock_prefix(s, h, m) == lock_prefix(s, h, n),
    decreases m - n,
{
    if n < m {
        lemma_lock_prefix_err_stays(s, h, n, m - 1);
    }
}

/// Assembles the lock from the sources and the outcome of their
/// prefetches: `hashes` pairs each prefetch key with its hash, `failures`
/// holds the message of each failed prefetch.
pub fn build_lock(
    sources: &Vec<GrammarSource>,
    hashes: &Vec<(PrefetchKey, String)>,
    failures: &Vec<String>,
) -> (r: Result<GrammarLockFile, GrammarError>)
    ensures
        match r {
            Ok(lock) => lock.version == LOCK_VERSION && built_lock(
                sources_view(sources@),
                hashes@,
                strings_view(failures@),
            ) == Ok::<Map<Seq<char>, LockEntryView>, (GrammarErrorKind, Seq<char>)>(lock.grammars@),
            Err(e) => built_lock(sources_view(sources@), hashes@, strings_view(failures@)) == Err::<
                Map<Seq<char>, LockEntryView>,
                (GrammarErrorKind, Seq<char>),
            >(e@),
        },
{
    if failures.len() > 0 {
        let mut m = String::from_str("grammar source prefetch failed:\n");
        m.append(join_strings(failures, "\n").as_str());
        return Err(GrammarError { kind: GrammarErrorKind::PrefetchFailed, message: m });
    }
    let ghost sv = sources_view(sources@);
    let mut grammars = LockEntries::new();
    let mut i: usize = 0;
    while i < sources.len()
        invariant
            i <= sources.len(),
            sv == sources_view(sources@),
            failures@.len() == 0,
            lock_prefix(sv, hashes@, i as int) == Ok::<
                Map<Seq<char>, LockEntryView>,
                (GrammarErrorKind, Seq<char>),
            >(grammars@),
        decreases sources.len() - i,
    {
        let source = &sources[i];
        assert(sv[i as int] == source@);
        let key = match source.prefetch_key() {
            Ok(k) => k,
            Err(e) => {
                proof {
                    lemma_lock_prefix_err_stays(sv, hashes@, i + 1, sv.len() as int);
                }
                return Err(e);
            },
        };
        let hash = match find_hash(hashes, &key) {
            Some(h) => h,
            None => {
                let mut m = String::from_str("missing prefetch hash for grammar '");
                m.append(source.name.as_str());
                m.append("'");
                proof {
                    lemma_lock_prefix_err_stays(sv, hashes@, i + 1, sv.len() as int);
                }
                return Err(GrammarError { kind: GrammarErrorKind::MissingPrefetchHash, message: m });
            },
        };
        let entry = match source.lock_entry(hash.as_str()) {
            Ok(e) => e,
            Err(e) => {
                proof {
                    lemma_lock_prefix_err_stays(sv, hashes@, i + 1, sv.len() as int);
                }
                return Err(e);
            },
        };
        grammars.insert(source.name.clone(), entry);
        i = i + 1;
    }
    Ok(GrammarLockFile { grammars, version: LOCK_VERSION })
}

// ---------------------------------------------------------------------
// Validating a lock

/// The distinct names among the first `n`, in order of first occurrence.
pub open spec fn first_names(names: Seq<Seq<char>>, n: int) -> Seq<Seq<char>>
    decreases n,
{
    if n <= 0 {
        Seq::empty()
    } else {
        let prev = first_names(names, n - 1);
        if prev.contains(names[n - 1]) {
            prev
        } else {
            prev.push(names[n - 1])
        }
    }
}

/// The first `n` names that are not keys of `m`, in order.
pub open spec fn unlocked_names(names: Seq<Seq<char>>, m: Map<Seq<char>, LockEntryView>, n: int) -> Seq<
    Seq<char>,
>
    decreases n,
{
    if n <= 0 {
        Seq::empty()
    } else {
        let prev = unlocked_names(names, m, n - 1);
        if m.dom().contains(names[n - 1]) {
            prev
        } else {
            prev.push(names[n - 1])
        }
    }
}

/// The first `n` names that are not in `active`, in order.
pub open spec fn inactive_names(names: Seq<Seq<char>>, active: Seq<Seq<char>>, n: int) -> Seq<
    Seq<char>,
>
    decreases n,
{
    if n <= 0 {
        Seq::empty()
    } else {
        let prev = inactive_names(names, active, n - 1);
        if active.contains(names[n - 1]) {
            prev
        } else {
            prev.push(names[n - 1])
        }
    }
}

/// The names of the sources.
pub open spec fn source_names(s: Seq<GrammarSourceView>) -> Seq<Seq<char>> {
    s.map_values(|v: GrammarSourceView| v.name)
}

/// Active grammars without a lock entry, each once, in source order.
pub open spec fn missing_entries(s: Seq<GrammarSourceView>, m: Map<Seq<char>, LockEntryView>) -> Seq<
    Seq<char>,
> {
    let d = first_names(source_names(s), s.len() as int);
    unlocked_names(d, m, d.len() as int)
}

/// Lock entries of no active grammar, in lock order.
pub open spec fn stale_entries(s: Seq<GrammarSourceView>, lock_names: Seq<Seq<char>>) -> Seq<
    Seq<char>,
> {
    inactive_names(lock_names, source_names(s), lock_names.len() as int)
}

/// The findings about the lock as a whole: version, missing and stale
/// entries.
pub open spec fn lock_level_errors(
    s: Seq<GrammarSourceView>,
    m: Map<Seq<char>, LockEntryView>,
    lock_names: Seq<Seq<char>>,
    version: u32,
) -> Seq<Seq<char>> {
    let v = if version != LOCK_VERSION {
        seq![
            "unsupported lock version "@ + decimal(version as nat) + "; expected "@ + decimal(
                LOCK_VERSION as nat,
            ),
        ]
    } else {
        Seq::empty()
    };
    let missing = missing_entries(s, m);
    let mm = if missing.len() > 0 {
        seq!["missing lock entries: "@ + join_with(missing, ", "@)]
    } else {
        Seq::empty()
    };
    let stale = stale_entries(s, lock_names);
    let st = if stale.len() > 0 {
        seq!["stale lock entries: "@ + join_with(stale, ", "@)]
    } else {
        Seq::empty()
    };
    v + mm + st
}

/// `[msg]` when `cond` holds, else nothing.
pub open spec fn when(cond: bool, msg: Seq<char>) -> Seq<Seq<char>> {
    if cond {
        seq![msg]
    } else {
        Seq::empty()
    }
}

/// The findings about one source against its lock entry, if it has one;
/// or the failure to read its GitHub URL.
pub open spec fn source_findings(src: GrammarSourceView, m: Map<Seq<char>, LockEntryView>) -> Result<
    Seq<Seq<char>>,
    (GrammarErrorKind, Seq<char>),
> {
    if !m.dom().contains(src.name) {
        Ok(Seq::empty())
    } else {
        let e = m[src.name];
        let name = src.name;
        let rev = when(
            e.rev != src.rev,
            name + ": lock rev "@ + e.rev + " != languages.toml rev "@ + src.rev,
        );
        if github_prefix().is_prefix_of(src.git) {
            match github_parts(src.git) {
                None => Err((GrammarErrorKind::InvalidGithubUrl, invalid_github_message(src.git))),
                Some((owner, repo)) => Ok(
                    rev + when(e.fetcher != "github"@, name + ": expected github fetcher"@) + when(
                        e.owner != Some(owner) || e.repo != Some(repo),
                        name + ": github owner/repo drift"@,
                    ),
                ),
            }
        } else if archive_url_spec(src.git, src.rev) is Some {
            Ok(
                rev + when(
                    e.fetcher != "archive"@,
                    name + ": expected archive fetcher for archive-capable URL"@,
                ) + when(e.url != Some(src.git), name + ": archive url drift"@),
            )
        } else if e.fetcher != "git"@ {
            Ok(rev + seq![name + ": expected git fetcher"@])
        } else {
            Ok(rev + when(e.url != Some(src.git), name + ": git url drift"@))
        }
    }
}

/// The findings about the first `n` sources, in order; or the first failure.
pub open spec fn findings_prefix(s: Seq<GrammarSourceView>, m: Map<Seq<char>, LockEntryView>, n: int) -> Result<
    Seq<Seq<char>>,
    (GrammarErrorKind, Seq<char>),
>
    decreases n,
{
    if n <= 0 {
        Ok(Seq::empty())
    } else {
        match findings_prefix(s, m, n - 1) {
            Err(e) => Err(e),
            Ok(prev) => match source_findings(s[n - 1], m) {
                Err(e) => Err(e),
                Ok(f) => Ok(prev + f),
            },
        }
    }
}

/// All findings about a lock (`None` when there is no lock file at
/// `lock_path`): those about the lock as a whole, then those about each
/// source in order.
pub open spec fn validation_outcome(
    s: Seq<GrammarSourceView>,
    lock: Option<(Map<Seq<char>, LockEntryView>, Seq<Seq<char>>, u32)>,
    lock_path: Seq<char>,
) -> Result<Seq<Seq<char>>, (GrammarErrorKind, Seq<char>)> {
    match lock {
        None => Ok(seq!["missing lock file: "@ + lock_path]),
        Some((m, names, version)) => match findings_prefix(s, m, s.len() as int) {
            Err(e) => Err(e),
            Ok(f) => Ok(lock_level_errors(s, m, names, version) + f),
        },
    }
}

/// The parts of a lock that validation reads.
pub open spec fn lock_summary(lock: Option<&GrammarLockFile>) -> Option<
    (Map<Seq<char>, LockEntryView>, Seq<Seq<char>>, u32),
> {
    match lock {
        Some(l) => Some((l.grammars@, l.grammars.names(), l.version)),
        None => None,
    }
}

fn push_string(v: &mut Vec<String>, s: String)
    ensures
        strings_view(final(v)@) == strings_view(old(v)@).push(s@),
{
    v.push(s);
    assert(strings_view(v@) =~= strings_view(old(v)@).push(s@));
}

fn contains_string(v: &Vec<String>, s: &String) -> (r: bool)
    ensures
        r == strings_view(v@).contains(s@),
{
    let mut i: usize = 0;
    while i < v.len()
        invariant
            i <= v.len(),
            forall|k: int| 0 <= k < i ==> #[trigger] strings_view(v@)[k] != s@,
        decreases v.len() - i,
    {
        if v[i] == *s {
            assert(strings_view(v@)[i as int] == s@);
            return true;
        }
        i = i + 1;
    }
    false
}

fn option_is(o: &Option<String>, s: &String) -> (r: bool)
    ensures
        r == (crate::grammar_source::opt_string_view(*o) == Some(s@)),
{
    match o {
        Some(v) => *v == *s,
        None => false,
    }
}

/// The findings about one source, appended to `out`.
fn check_source(source: &GrammarSource, grammars: &LockEntries, out: &mut Vec<String>) -> (r: Result<(), GrammarError>)
    ensures
        match r {
            Ok(()) => source_findings(source@, grammars@) matches Ok(f) && strings_view(final(out)@)
                == strings_view(old(out)@) + f,
            Err(e) => source_findings(source@, grammars@) == Err::<
                Seq<Seq<char>>,
                (GrammarErrorKind, Seq<char>),
            >(e@),
        },
{
    let ghost start = strings_view(out@);
    let entry = match grammars.get(source.name.as_str()) {
        Some(e) => e,
        None => {
            assert(strings_view(out@) =~= start + Seq::<Seq<char>>::empty());
            return Ok(());
        },
    };
    let name = source.name.as_str();
    if entry.rev != source.rev {
        let mut m = concat_strs(name, ": lock rev ");
        m.append(entry.rev.as_str());
        m.append(" != languages.toml rev ");
        m.append(source.rev.as_str());
        push_string(out, m);
    }
    if has_prefix(source.git.as_str(), "https://github.com/") {
        let (owner, repo) = parse_github(source.git.as_str())?;
        if entry.fetcher != String::from_str("github") {
            push_string(out, concat_strs(name, ": expected github fetcher"));
        }
        if !option_is(&entry.owner, &owner) || !option_is(&entry.repo, &repo) {
            push_string(out, concat_strs(name, ": github owner/repo drift"));
        }
    } else if archive_url(source.git.as_str(), source.rev.as_str()).is_some() {
        if entry.fetcher != String::from_str("archive") {
            push_string(out, concat_strs(name, ": expected archive fetcher for archive-capable URL"));
        }
        if !option_is(&entry.url, &source.git) {
            push_string(out, concat_strs(name, ": archive url drift"));
        }
    } else if entry.fetcher != String::from_str("git") {
        push_string(out, concat_strs(name, ": expected git fetcher"));
    } else if !option_is(&entry.url, &source.git) {
        push_string(out, concat_strs(name, ": git url drift"));
    }
    proof {
        let f = source_findings(source@, grammars@);
        assert(f matches Ok(ff) && strings_view(out@) =~= start + ff);
    }
    Ok(())
}

proof fn lemma_findings_err_stays(
    s: Seq<GrammarSourceView>,
    m: Map<Seq<char>, LockEntryView>,
    n: int,
    k: int,
)
    requires
        1 <= n <= k,
        findings_prefix(s, m, n) is Err,
    ensures
        findings_prefix(s, m, k) == findings_prefix(s, m, n),
    decreases k - n,
{
    if n < k {
        lemma_findings_err_stays(s, m, n, k - 1);
    }
}

/// What validation finds wrong with the lock. `lock` is the lock read
/// from `lock_path`, or `None` when no file exists there.
pub fn collect_validation_errors(
    sources: &Vec<GrammarSource>,
    lock: Option<&GrammarLockFile>,
    lock_path: &str,
) -> (r: Result<Vec<String>, GrammarError>)
    ensures
        match r {
            Ok(v) => validation_outcome(sources_view(sources@), lock_summary(lock), lock_path@)
                == Ok::<Seq<Seq<char>>, (GrammarErrorKind, Seq<char>)>(strings_view(v@)),
            Err(e) => validation_outcome(sources_view(sources@), lock_summary(lock), lock_path@)
                == Err::<Seq<Seq<char>>, (GrammarErrorKind, Seq<char>)>(e@),
        },
{
    let mut errors: Vec<String> = Vec::new();
    let l = match lock {
        None => {
            push_string(&mut errors, concat_strs("missing lock file: ", lock_path));
            assert(strings_view(errors@) =~= seq!["missing lock file: "@ + lock_path@]);
            return Ok(errors);
        },
        Some(l) => l,
    };
    assert(lock == Some(l));
    let ghost sv = sources_view(sources@);
    let ghost m = l.grammars@;
    if l.version != LOCK_VERSION {
        let mut msg = String::from_str("unsupported lock version ");
        msg.append(decimal_string(l.version as u128).as_str());
        msg.append("; expected ");
        msg.append(decimal_string(LOCK_VERSION as u128).as_str());
        push_string(&mut errors, msg);
    }
    // Distinct active names, in source order.
    let mut names: Vec<String> = Vec::new();
    let mut i: usize = 0;
    while i < sources.len()
        invariant
            i <= sources.len(),
            sv == sources_view(sources@),
            strings_view(names@) == first_names(source_names(sv), i as int),
        decreases sources.len() - i,
    {
        assert(source_names(sv)[i as int] == sources@[i as int].name@);
        if !contains_string(&names, &sources[i].name) {
            push_string(&mut names, sources[i].name.clone());
        }
        i = i + 1;
    }
    let ghost d = strings_view(names@);
    let mut missing: Vec<String> = Vec::new();
    let mut j: usize = 0;
    while j < names.len()
        invariant
            j <= names.len(),
            d == strings_view(names@),
            m == l.grammars@,
            strings_view(missing@) == unlocked_names(d, m, j as int),
        decreases names.len() - j,
    {
        assert(d[j as int] == names@[j as int]@);
        if l.grammars.get(names[j].as_str()).is_none() {
            push_string(&mut missing, names[j].clone());
        }
        j = j + 1;
    }
    if missing.len() > 0 {
        let msg = concat_strs("missing lock entries: ", join_strings(&missing, ", ").as_str());
        push_string(&mut errors, msg);
    }
    let lock_names = l.grammars.name_list();
    let ghost ln = strings_view(lock_names@);
    let mut stale: Vec<String> = Vec::new();
    let mut k: usize = 0;
    while k < lock_names.len()
        invariant
            k <= lock_names.len(),
            ln == strings_view(lock_names@),
            sv == sources_view(sources@),
            strings_view(names@) == first_names(source_names(sv), sv.len() as int),
            strings_view(stale@) == inactive_names(ln, source_names(sv), k as int),
        decreases lock_names.len() - k,
    {
        assert(ln[k as int] == lock_names@[k as int]@);
        proof {
            lemma_first_names_contains(source_names(sv), sv.len() as int);
            assert(source_names(sv).take(sv.len() as int) =~= source_names(sv));
        }
        if !contains_string(&names, &lock_names[k]) {
            push_string(&mut stale, lock_names[k].clone());
        }
        k = k + 1;
    }
    if stale.len() > 0 {
        let msg = concat_strs("stale lock entries: ", join_strings(&stale, ", ").as_str());
        push_string(&mut errors, msg);
    }
    assert(strings_view(errors@) =~= lock_level_errors(sv, m, ln, l.version));
    let ghost header = strings_view(errors@);
    let mut n: usize = 0;
    assert(header + Seq::<Seq<char>>::empty() =~= header);
    while n < sources.len()
        invariant
            n <= sources.len(),
            sv == sources_view(sources@),
            m == l.grammars@,
            lock == Some(l),
            findings_prefix(sv, m, n as int) matches Ok(f) && strings_view(errors@) == header + f,
        decreases sources.len() - n,
    {
        assert(sv[n as int] == sources@[n as int]@);
        match check_source(&sources[n], &l.grammars, &mut errors) {
            Ok(()) => {
                proof {
                    let f0 = findings_prefix(sv, m, n as int)->Ok_0;
                    let f1 = source_findings(sv[n as int], m)->Ok_0;
                    assert(strings_view(errors@) =~= header + (f0 + f1));
                }
            },
            Err(e) => {
                proof {
                    lemma_findings_err_stays(sv, m, n + 1, sv.len() as int);
                }
                return Err(e);
            },
        }
        n = n + 1;
    }
    Ok(errors)
}

proof fn lemma_first_names_contains(names: Seq<Seq<char>>, n: int)
    requires
        0 <= n <= names.len(),
    ensures
        forall|x: Seq<char>| #[trigger] first_names(names, n).contains(x) <==> names.take(n).contains(x),
    decreases n,
{
    if n > 0 {
        lemma_first_names_contains(names, n - 1);
        let prev = first_names(names, n - 1);
        assert forall|x: Seq<char>| #[trigger] first_names(names, n).contains(x) <==> names.take(
            n,
        ).contains(x) by {
            if names.take(n).contains(x) {
                let i = choose|i: int| 0 <= i < n && #[trigger] names.take(n)[i] == x;
                if i < n - 1 {
                    assert(names.take(n - 1)[i] == x);
                }
                if first_names(names, n) == prev {
                    assert(prev.contains(names[n - 1]));
                } else {
                    assert(first_names(names, n)[prev.len() as int] == names[n - 1]);
                }
                if i < n - 1 {
                    assert(prev.contains(x));
                    let j = choose|j: int| 0 <= j < prev.len() && prev[j] == x;
                    assert(first_names(names, n)[j] == x);
                }
            }
            if first_names(names, n).contains(x) {
                let j = choose|j: int| 0 <= j < first_names(names, n).len() && first_names(names, n)[j] == x;
                if j < prev.len() {
                    assert(first_names(names, n)[j] == prev[j]);
                    assert(prev.contains(x));
                    let i = choose|i: int| 0 <= i < n - 1 && #[trigger] names.take(n - 1)[i] == x;
                    assert(names.take(n)[i] == x);
                } else {
                    assert(names.take(n)[n - 1] == x);
                }
            }
        }
    }
}

// ---------------------------------------------------------------------
// Partial updates

/// The first `n` sources whose names are in `selected`, in order.
pub open spec fn selected_prefix(s: Seq<GrammarSourceView>, selected: Seq<Seq<char>>, n: int) -> Seq<
    GrammarSourceView,
>
    decreases n,
{
    if n <= 0 {
        Seq::empty()
    } else {
        let prev = selected_prefix(s, selected, n - 1);
        if selected.contains(s[n - 1].name) {
            prev.push(s[n - 1])
        } else {
            prev
        }
    }
}

/// The sources an update refreshes: all of them when nothing is selected,
/// else those whose names are selected, which must be at least one.
pub open spec fn selection_outcome(s: Seq<GrammarSourceView>, selected: Seq<Seq<char>>) -> Result<
    Seq<GrammarSourceView>,
    (GrammarErrorKind, Seq<char>),
> {
    if selected.len() == 0 {
        Ok(s)
    } else {
        let kept = selected_prefix(s, selected, s.len() as int);
        if kept.len() == 0 {
            Err((GrammarErrorKind::NoMatchingGrammars, "no matching grammars selected"@))
        } else {
            Ok(kept)
        }
    }
}

/// Keeps the sources an update refreshes.
pub fn select_sources(sources: Vec<GrammarSource>, selected: &Vec<String>) -> (r: Result<
    Vec<GrammarSource>,
    GrammarError,
>)
    ensures
        match r {
            Ok(v) => selection_outcome(sources_view(sources@), strings_view(selected@)) == Ok::<
                Seq<GrammarSourceView>,
                (GrammarErrorKind, Seq<char>),
            >(sources_view(v@)),
            Err(e) => selection_outcome(sources_view(sources@), strings_view(selected@)) == Err::<
                Seq<GrammarSourceView>,
                (GrammarErrorKind, Seq<char>),
            >(e@),
        },
{
    if selected.len() == 0 {
        return Ok(sources);
    }
    let ghost sv = sources_view(sources@);
    let mut kept: Vec<GrammarSource> = Vec::new();
    let mut rest = sources;
    let ghost all = rest@;
    let ghost mut done: int = 0;
    assert(all.skip(0) =~= all);
    assert(sources_view(kept@) =~= Seq::<GrammarSourceView>::empty());
    while rest.len() > 0
        invariant
            0 <= done <= all.len(),
            rest@ == all.skip(done),
            sv == sources_view(all),
            sources_view(kept@) == selected_prefix(sv, strings_view(selected@), done),
        decreases rest.len(),
    {
        let source = rest.remove(0);
        proof {
            assert(all[done] == source);
            assert(sv[done] == source@);
            assert(all.skip(done).remove(0) =~= all.skip(done + 1));
        }
        if contains_string(selected, &source.name) {
            let ghost before = kept@;
            kept.push(source);
            assert(sources_view(kept@) =~= sources_view(before).push(source@));
        }
        proof {
            done = done + 1;
        }
    }
    if kept.len() == 0 {
        return Err(
            GrammarError {
                kind: GrammarErrorKind::NoMatchingGrammars,
                message: String::from_str("no matching grammars selected"),
            },
        );
    }
    Ok(kept)
}

/// The lock an update writes: the refreshed lock, or, for a partial update
/// of an existing lock, the existing entries with the refreshed ones
/// replacing those of the same name, at the current version.
pub fn merge_lock(existing: Option<GrammarLockFile>, refreshed: GrammarLockFile) -> (r: GrammarLockFile)
    ensures
        match existing {
            Some(e) => r.grammars@ == e.grammars@.union_prefer_right(refreshed.grammars@) && r.version
                == LOCK_VERSION,
            None => r.grammars@ == refreshed.grammars@ && r.version == refreshed.version,
        },
{
    match existing {
        Some(e) => {
            let mut grammars = e.grammars;
            grammars.extend(refreshed.grammars);
            GrammarLockFile { grammars, version: LOCK_VERSION }
        },
        None => refreshed,
    }
}

// ---------------------------------------------------------------------
// Laws

proof fn lemma_lock_prefix_entries(s: Seq<GrammarSourceView>, h: Seq<(PrefetchKey, String)>, n: int)
    requires
        0 <= n <= s.len(),
        source_names(s).no_duplicates(),
        lock_prefix(s, h, n) is Ok,
    ensures
        forall|k: Seq<char>| #[trigger] lock_prefix(s, h, n)->Ok_0.dom().contains(k)
            <==> source_names(s).take(n).contains(k),
        forall|i: int|
            0 <= i < n ==> {
                &&& #[trigger] source_key(s[i]) is Some
                &&& hash_for(h, source_key(s[i])->Some_0) is Some
                &&& lock_entry_spec(s[i], hash_for(h, source_key(s[i])->Some_0)->Some_0) == Some(
                    lock_prefix(s, h, n)->Ok_0[s[i].name],
                )
            },
    decreases n,
{
    if n > 0 {
        lemma_lock_prefix_entries(s, h, n - 1);
        let prev = lock_prefix(s, h, n - 1)->Ok_0;
        let m = lock_prefix(s, h, n)->Ok_0;
        let last = s[n - 1];
        assert(source_names(s)[n - 1] == last.name);
        assert forall|k: Seq<char>| #[trigger] m.dom().contains(k) <==> source_names(s).take(
            n,
        ).contains(k) by {
            if source_names(s).take(n).contains(k) {
                let i = choose|i: int| 0 <= i < n && #[trigger] source_names(s).take(n)[i] == k;
                if i < n - 1 {
                    assert(source_names(s).take(n - 1)[i] == k);
                }
            }
            if prev.dom().contains(k) {
                let i = choose|i: int| 0 <= i < n - 1 && #[trigger] source_names(s).take(n - 1)[i] == k;
                assert(source_names(s).take(n)[i] == k);
            }
            if k == last.name {
                assert(source_names(s).take(n)[n - 1] == k);
            }
        }
        assert forall|i: int| 0 <= i < n implies {
            &&& #[trigger] source_key(s[i]) is Some
            &&& hash_for(h, source_key(s[i])->Some_0) is Some
            &&& lock_entry_spec(s[i], hash_for(h, source_key(s[i])->Some_0)->Some_0) == Some(
                m[s[i].name],
            )
        } by {
            if i < n - 1 {
                assert(source_names(s)[i] == s[i].name);
                assert(source_names(s)[i] != source_names(s)[n - 1]);
            }
        }
    }
}

proof fn lemma_source_clean(src: GrammarSourceView, m: Map<Seq<char>, LockEntryView>, hash: Seq<char>)
    requires
        m.dom().contains(src.name),
        lock_entry_spec(src, hash) == Some(m[src.name]),
    ensures
        source_findings(src, m) == Ok::<Seq<Seq<char>>, (GrammarErrorKind, Seq<char>)>(
            Seq::empty(),
        ),
{
    let e = m[src.name];
    if github_prefix().is_prefix_of(src.git) {
        assert(github_parts(src.git) is Some);
    }
    assert(source_findings(src, m)->Ok_0 =~= Seq::<Seq<char>>::empty());
}

proof fn lemma_findings_clean(s: Seq<GrammarSourceView>, h: Seq<(PrefetchKey, String)>, n: int)
    requires
        0 <= n <= s.len(),
        source_names(s).no_duplicates(),
        lock_prefix(s, h, s.len() as int) is Ok,
    ensures
        findings_prefix(s, lock_prefix(s, h, s.len() as int)->Ok_0, n) == Ok::<
            Seq<Seq<char>>,
            (GrammarErrorKind, Seq<char>),
        >(Seq::empty()),
    decreases n,
{
    let m = lock_prefix(s, h, s.len() as int)->Ok_0;
    if n > 0 {
        lemma_findings_clean(s, h, n - 1);
        lemma_lock_prefix_entries(s, h, s.len() as int);
        let src = s[n - 1];
        assert(source_key(src) is Some);
        let hash = hash_for(h, source_key(src)->Some_0)->Some_0;
        assert(source_names(s)[n - 1] == src.name);
        assert(source_names(s).take(s.len() as int)[n - 1] == src.name);
        assert(m.dom().contains(src.name));
        lemma_source_clean(src, m, hash);
        assert(Seq::<Seq<char>>::empty() + Seq::<Seq<char>>::empty() =~= Seq::<Seq<char>>::empty());
    }
}

proof fn lemma_unlocked_none(d: Seq<Seq<char>>, m: Map<Seq<char>, LockEntryView>, n: int)
    requires
        0 <= n <= d.len(),
        forall|j: int| 0 <= j < n ==> m.dom().contains(#[trigger] d[j]),
    ensures
        unlocked_names(d, m, n).len() == 0,
    decreases n,
{
    if n > 0 {
        lemma_unlocked_none(d, m, n - 1);
    }
}

proof fn lemma_inactive_none(names: Seq<Seq<char>>, active: Seq<Seq<char>>, n: int)
    requires
        0 <= n <= names.len(),
        forall|j: int| 0 <= j < n ==> active.contains(#[trigger] names[j]),
    ensures
        inactive_names(names, active, n).len() == 0,
    decreases n,
{
    if n > 0 {
        lemma_inactive_none(names, active, n - 1);
    }
}

/// A lock built from sources with distinct names, written out whole,
/// validates against those sources without any finding: `update` followed
/// by `validate` succeeds. `names` are the lock's names in its own order
/// (any order of the built lock's keys).
pub proof fn lemma_built_lock_validates(
    s: Seq<GrammarSourceView>,
    h: Seq<(PrefetchKey, String)>,
    names: Seq<Seq<char>>,
    lock_path: Seq<char>,
)
    requires
        source_names(s).no_duplicates(),
        built_lock(s, h, Seq::empty()) is Ok,
        forall|k: Seq<char>| #[trigger] names.contains(k) <==> built_lock(
            s,
            h,
            Seq::empty(),
        )->Ok_0.dom().contains(k),
    ensures
        validation_outcome(s, Some((built_lock(s, h, Seq::empty())->Ok_0, names, LOCK_VERSION)), lock_path)
            == Ok::<Seq<Seq<char>>, (GrammarErrorKind, Seq<char>)>(Seq::empty()),
{
    let m = built_lock(s, h, Seq::empty())->Ok_0;
    let n = s.len() as int;
    lemma_lock_prefix_entries(s, h, n);
    lemma_findings_clean(s, h, n);
    assert(source_names(s).take(n) =~= source_names(s));
    let d = first_names(source_names(s), n);
    lemma_first_names_contains(source_names(s), n);
    assert forall|j: int| 0 <= j < d.len() implies m.dom().contains(#[trigger] d[j]) by {
        assert(d.contains(d[j]));
    }
    lemma_unlocked_none(d, m, d.len() as int);
    assert forall|j: int| 0 <= j < names.len() implies source_names(s).contains(#[trigger] names[j]) by {
        assert(names.contains(names[j]));
    }
    lemma_inactive_none(names, source_names(s), names.len() as int);
    assert(lock_level_errors(s, m, names, LOCK_VERSION) =~= Seq::<Seq<char>>::empty());
    assert(Seq::<Seq<char>>::empty() + Seq::<Seq<char>>::empty() =~= Seq::<Seq<char>>::empty());
}

/// The distinct prefetches share no key, and every source's key is among
/// them: each prefetch runs once and together they cover every source.
pub proof fn lemma_unique_prefetches_cover(s: Seq<GrammarSourceView>, n: int)
    requires
        0 <= n <= s.len(),
        unique_prefix(s, n) is Ok,
    ensures
        forall|a: int, b: int|
            0 <= a < b < unique_prefix(s, n)->Ok_0.len() ==> #[trigger] unique_prefix(s, n)->Ok_0[a].0
                != #[trigger] unique_prefix(s, n)->Ok_0[b].0,
        forall|i: int|
            0 <= i < n ==> #[trigger] source_key(s[i]) is Some && key_listed(
                unique_prefix(s, n)->Ok_0,
                source_key(s[i])->Some_0,
            ),
    decreases n,
{
    if n > 0 {
        lemma_unique_prefix_err_or_ok(s, n);
        lemma_unique_prefetches_cover(s, n - 1);
        let prev = unique_prefix(s, n - 1)->Ok_0;
        let cur = unique_prefix(s, n)->Ok_0;
        let k = source_key(s[n - 1])->Some_0;
        if !key_listed(prev, k) {
            assert forall|a: int, b: int| 0 <= a < b < cur.len() implies #[trigger] cur[a].0
                != #[trigger] cur[b].0 by {
                if b == cur.len() - 1 {
                    assert(cur[a] == prev[a]);
                    assert(cur[b].0 == k);
                    if cur[a].0 == k {
                        assert(prev[a].0 == k);
                    }
                } else {
                    assert(cur[a] == prev[a] && cur[b] == prev[b]);
                }
            }
            assert(cur[cur.len() - 1].0 == k);
            assert forall|i: int| 0 <= i < n implies #[trigger] source_key(s[i]) is Some && key_listed(
                cur,
                source_key(s[i])->Some_0,
            ) by {
                if i < n - 1 {
                    let j = choose|j: int| 0 <= j < prev.len() && #[trigger] prev[j].0 == source_key(
                        s[i],
                    )->Some_0;
                    assert(cur[j] == prev[j]);
                }
            }
        }
    }
}

proof fn lemma_unique_prefix_err_or_ok(s: Seq<GrammarSourceView>, n: int)
    requires
        1 <= n,
        unique_prefix(s, n) is Ok,
    ensures
        unique_prefix(s, n - 1) is Ok,
        source_key(s[n - 1]) is Some,
{
}

/// Reading a name just written gives what was written; other names keep
/// what they had.
pub proof fn lemma_lock_read_after_write(
    m: Map<Seq<char>, LockEntryView>,
    name: Seq<char>,
    entry: LockEntryView,
    other: Seq<char>,
)
    ensures
        m.insert(name, entry).dom().contains(name),
        m.insert(name, entry)[name] == entry,
        other != name ==> (m.insert(name, entry).dom().contains(other) == m.dom().contains(other)),
        other != name && m.dom().contains(other) ==> m.insert(name, entry)[other] == m[other],
{
}

/// A partial update keeps every existing entry it does not refresh and
/// takes every refreshed entry as refreshed.
pub proof fn lemma_merge_keeps_and_replaces(
    existing: Map<Seq<char>, LockEntryView>,
    refreshed: Map<Seq<char>, LockEntryView>,
    name: Seq<char>,
)
    ensures
        refreshed.dom().contains(name) ==> existing.union_prefer_right(refreshed)[name]
            == refreshed[name],
        !refreshed.dom().contains(name) && existing.dom().contains(name)
            ==> existing.union_prefer_right(refreshed)[name] == existing[name],
        existing.union_prefer_right(refreshed).dom().contains(name) <==> (existing.dom().contains(
            name,
        ) || refreshed.dom().contains(name)),
{
}


/// An archive-capable source (Codeberg or SourceHut) whose lock entry has
/// the right revision and URL but a fetcher other than `archive` gets
/// exactly one finding: that the archive fetcher was expected.
pub proof fn lemma_archive_fetcher_drift_reported(
    src: GrammarSourceView,
    m: Map<Seq<char>, LockEntryView>,
)
    requires
        m.dom().contains(src.name),
        archive_url_spec(src.git, src.rev) is Some,
        m[src.name].rev == src.rev,
        m[src.name].url == Some(src.git),
        m[src.name].fetcher != "archive"@,
    ensures
        source_findings(src, m) == Ok::<Seq<Seq<char>>, (GrammarErrorKind, Seq<char>)>(
            seq![src.name + ": expected archive fetcher for archive-capable URL"@],
        ),
{
    lemma_archive_url_not_github(src.git, src.rev);
    let name = src.name;
    assert(Seq::<Seq<char>>::empty() + seq![name + ": expected archive fetcher for archive-capable URL"@]
        + Seq::<Seq<char>>::empty() =~= seq![name + ": expected archive fetcher for archive-capable URL"@]);
}

/// A lock entry that validates without findings is the entry locking the
/// source now would write, for any hash: same fetcher and revision, the
/// same GitHub owner and repository, and the same URL where one is kept.
pub proof fn lemma_clean_entry_matches_fresh_entry(
    src: GrammarSourceView,
    m: Map<Seq<char>, LockEntryView>,
    hash: Seq<char>,
)
    requires
        m.dom().contains(src.name),
        source_findings(src, m) == Ok::<Seq<Seq<char>>, (GrammarErrorKind, Seq<char>)>(Seq::empty()),
    ensures
        lock_entry_spec(src, hash) matches Some(e) && {
            &&& e.fetcher == m[src.name].fetcher
            &&& e.rev == m[src.name].rev
            &&& e.url is Some ==> e.url == m[src.name].url
            &&& e.owner is Some ==> e.owner == m[src.name].owner && e.repo == m[src.name].repo
        },
{
    let e = m[src.name];
    let name = src.name;
    let rev = when(
        e.rev != src.rev,
        name + ": lock rev "@ + e.rev + " != languages.toml rev "@ + src.rev,
    );
    if github_prefix().is_prefix_of(src.git) {
        let (owner, repo) = github_parts(src.git)->Some_0;
        let a = when(e.fetcher != "github"@, name + ": expected github fetcher"@);
        let b = when(e.owner != Some(owner) || e.repo != Some(repo), name + ": github owner/repo drift"@);
        assert((rev + a + b).len() == rev.len() + a.len() + b.len());
    } else if archive_url_spec(src.git, src.rev) is Some {
        let a = when(e.fetcher != "archive"@, name + ": expected archive fetcher for archive-capable URL"@);
        let b = when(e.url != Some(src.git), name + ": archive url drift"@);
        assert((rev + a + b).len() == rev.len() + a.len() + b.len());
    } else if e.fetcher != "git"@ {
        assert((rev + seq![name + ": expected git fetcher"@]).len() == rev.len() + 1);
    } else {
        let b = when(e.url != Some(src.git), name + ": git url drift"@);
        assert((rev + b).len() == rev.len() + b.len());
    }
}

/// Each source of a lock built from sources with distinct names is locked
/// under its name with its own revision and its own sparse checkout
/// paths, whatever its fetcher: `["src"]` for the two src-only grammars and
/// none for any other.
pub proof fn lemma_built_lock_keeps_sparse(
    s: Seq<GrammarSourceView>,
    h: Seq<(PrefetchKey, String)>,
    i: int,
)
    requires
        source_names(s).no_duplicates(),
        built_lock(s, h, Seq::empty()) is Ok,
        0 <= i < s.len(),
    ensures
        built_lock(s, h, Seq::empty())->Ok_0.dom().contains(s[i].name),
        built_lock(s, h, Seq::empty())->Ok_0[s[i].name].rev == s[i].rev,
        built_lock(s, h, Seq::empty())->Ok_0[s[i].name].sparse_checkout == (if is_src_only_grammar(
            s[i].name,
            s[i].git,
        ) {
            Some(seq!["src"@])
        } else {
            None
        }),
{
    let n = s.len() as int;
    lemma_lock_prefix_entries(s, h, n);
    assert(source_key(s[i]) is Some);
    let hash = hash_for(h, source_key(s[i])->Some_0)->Some_0;
    lemma_lock_entry_records_source(s[i], hash);
    assert(source_names(s).take(n)[i] == s[i].name);
}

proof fn lemma_selected_prefix_filter(s: Seq<GrammarSourceView>, selected: Seq<Seq<char>>, n: int)
    requires
        0 <= n <= s.len(),
    ensures
        selected_prefix(s, selected, n) == s.take(n).filter(
            |x: GrammarSourceView| selected.contains(x.name),
        ),
    decreases n,
{
    reveal(Seq::filter);
    if n > 0 {
        lemma_selected_prefix_filter(s, selected, n - 1);
        assert(s.take(n).drop_last() =~= s.take(n - 1));
        assert(s.take(n).last() == s[n - 1]);
    } else {
        assert(s.take(0) =~= Seq::<GrammarSourceView>::empty());
    }
}

/// The sources whose name is among `selected`, in source order.
pub open spec fn sources_named(s: Seq<GrammarSourceView>, selected: Seq<Seq<char>>) -> Seq<
    GrammarSourceView,
> {
    s.filter(|x: GrammarSourceView| selected.contains(x.name))
}

/// A partial update (some names selected) refreshes exactly the sources
/// whose name is anywhere among the selected names, in source order, and
/// fails exactly when no source is selected; with nothing selected it
/// refreshes every source.
pub proof fn lemma_selection_is_membership(s: Seq<GrammarSourceView>, selected: Seq<Seq<char>>)
    ensures
        selected.len() == 0 ==> selection_outcome(s, selected) == Ok::<
            Seq<GrammarSourceView>,
            (GrammarErrorKind, Seq<char>),
        >(s),
        selected.len() > 0 ==> match selection_outcome(s, selected) {
            Ok(v) => v == sources_named(s, selected) && v.len() > 0,
            Err(e) => e.0 == GrammarErrorKind::NoMatchingGrammars && forall|i: int|
                0 <= i < s.len() ==> !selected.contains(#[trigger] s[i].name),
        },
        forall|x: GrammarSourceView| #[trigger] sources_named(s, selected).contains(x) <==> (
            s.contains(x) && selected.contains(x.name)),
{
    let p = |x: GrammarSourceView| selected.contains(x.name);
    lemma_selected_prefix_filter(s, selected, s.len() as int);
    assert(s.take(s.len() as int) =~= s);
    let f = s.filter(p);
    assert(f == sources_named(s, selected));
    assert forall|x: GrammarSourceView| #[trigger] f.contains(x) <==> (s.contains(x) && selected.contains(x.name)) by {
        if f.contains(x) {
            s.lemma_filter_contains_rev(p, x);
            let j = choose|j: int| 0 <= j < f.len() && f[j] == x;
            s.lemma_filter_pred(p, j);
        }
        if s.contains(x) && selected.contains(x.name) {
            let i = choose|i: int| 0 <= i < s.len() && s[i] == x;
            s.lemma_filter_contains(p, i);
        }
    }
    if selected.len() > 0 && f.len() == 0 {
        assert forall|i: int| 0 <= i < s.len() implies !selected.contains(#[trigger] s[i].name) by {
            if selected.contains(s[i].name) {
                s.lemma_filter_contains(p, i);
                assert(f.contains(s[i]));
            }
        }
    }
}

} // verus!
