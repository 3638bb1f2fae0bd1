//! Grammar sources and how each one is fetched: GitHub repositories by
//! owner and name, Codeberg and SourceHut repositories as release archives,
//! everything else with git.

use vstd::prelude::*;

use crate::text::{chars_of, concat_strs, has_prefix, string_of_range};

verus! {

/// The kinds of failure while locking grammar sources.
#[derive(Debug, Clone, Copy, PartialEq, Eq, Structural)]
pub enum GrammarErrorKind {
    /// A `https://github.com/` URL without an owner/repository part.
    InvalidGithubUrl,
    /// Prefetching one or more sources failed.
    PrefetchFailed,
    /// No prefetched hash was found for a source.
    MissingPrefetchHash,
    /// A partial update selected no active grammar.
    NoMatchingGrammars,
    /// `languages.toml` is not valid TOML.
    InvalidLanguagesToml,
}

/// A failure while locking grammar sources: its kind and message.
#[derive(Debug)]
pub struct GrammarError {
    pub kind: GrammarErrorKind,
    pub message: String,
}

impl View for GrammarError {
    type V = (GrammarErrorKind, Seq<char>);

    open spec fn view(&self) -> (GrammarErrorKind, Seq<char>) {
        (self.kind, self.message@)
    }
}

impl GrammarError {
    /// The message shown to the user.
    pub fn message(&self) -> (m: String)
        ensures
            m@ == self.message@,
    {
        self.message.clone()
    }
}

/// One grammar as `languages.toml` declares it.
#[derive(Debug)]
pub struct GrammarSource {
    pub name: String,
    pub git: String,
    pub rev: String,
}

/// The abstract value of a [`GrammarSource`].
pub ghost struct GrammarSourceView {
    pub name: Seq<char>,
    pub git: Seq<char>,
    pub rev: Seq<char>,
}

impl View for GrammarSource {
    type V = GrammarSourceView;

    open spec fn view(&self) -> GrammarSourceView {
        GrammarSourceView { name: self.name@, git: self.git@, rev: self.rev@ }
    }
}

impl GrammarSource {
    /// A copy of this source.
    pub fn duplicate(&self) -> (r: GrammarSource)
        ensures
            r@ == self@,
    {
        GrammarSource { name: self.name.clone(), git: self.git.clone(), rev: self.rev.clone() }
    }
}

/// URLs of repositories on GitHub start with this.
pub open spec fn github_prefix() -> Seq<char> {
    "https://github.com/"@
}

/// URLs of repositories on Codeberg start with this.
pub open spec fn codeberg_prefix() -> Seq<char> {
    "https://codeberg.org/"@
}

/// URLs of repositories on SourceHut start with this.
pub open spec fn sourcehut_prefix() -> Seq<char> {
    "https://git.sr.ht/"@
}

/// The length of the first `c`-separated segment of `s` (its length when
/// `c` does not occur).
pub open spec fn segment_len(s: Seq<char>, c: char) -> nat
    decreases s.len(),
{
    if s.len() == 0 {
        0
    } else if s[0] == c {
        0
    } else {
        1 + segment_len(s.drop_first(), c)
    }
}

proof fn lemma_segment_len_bound(s: Seq<char>, c: char)
    ensures
        segment_len(s, c) <= s.len(),
        segment_len(s, c) < s.len() ==> s[segment_len(s, c) as int] == c,
        forall|k: int| 0 <= k < segment_len(s, c) ==> s[k] != c,
    decreases s.len(),
{
    if s.len() > 0 && s[0] != c {
        lemma_segment_len_bound(s.drop_first(), c);
        assert forall|k: int| 0 <= k < segment_len(s, c) implies s[k] != c by {
            if k > 0 {
                assert(s[k] == s.drop_first()[k - 1]);
            }
        }
    }
}

proof fn lemma_segment_len_step(s: Seq<char>, c: char, k: int)
    requires
        0 <= k < s.len(),
        s[k] != c,
    ensures
        segment_len(s.skip(k), c) == 1 + segment_len(s.skip(k + 1), c),
{
    assert(s.skip(k).drop_first() =~= s.skip(k + 1));
}

/// The index of the first `c` in `v` at or after `from`, or `v.len()`.
fn find_char_from(v: &Vec<char>, c: char, from: usize) -> (i: usize)
    requires
        from <= v.len(),
    ensures
        from <= i <= v.len(),
        i - from == segment_len(v@.skip(from as int), c),
{
    let mut k = from;
    while k < v.len() && v[k] != c
        invariant
            from <= k <= v.len(),
            segment_len(v@.skip(from as int), c) == (k - from) + segment_len(v@.skip(k as int), c),
        decreases v.len() - k,
    {
        proof {
            lemma_segment_len_step(v@, c, k as int);
        }
        k = k + 1;
    }
    proof {
        if k < v.len() {
            assert(v@.skip(k as int)[0] == c);
        } else {
            assert(v@.skip(k as int).len() == 0);
        }
    }
    k
}

/// Owner and repository of a `https://github.com/<owner>/<repo>...` URL:
/// the first two `/`-separated segments after the prefix. `None` when the
/// prefix is missing or the repository segment is.
pub open spec fn github_parts(url: Seq<char>) -> Option<(Seq<char>, Seq<char>)> {
    if !github_prefix().is_prefix_of(url) {
        None
    } else {
        let rest = url.skip(github_prefix().len() as int);
        let i = segment_len(rest, '/');
        if i == rest.len() {
            None
        } else {
            let after = rest.skip(i + 1 as int);
            Some((rest.take(i as int), after.take(segment_len(after, '/') as int)))
        }
    }
}

/// The message for a GitHub URL without owner/repository.
pub open spec fn invalid_github_message(url: Seq<char>) -> Seq<char> {
    "invalid GitHub grammar URL: "@ + url
}

/// Splits a GitHub grammar URL into owner and repository.
pub fn parse_github(url: &str) -> (r: Result<(String, String), GrammarError>)
    ensures
        match r {
            Ok((owner, repo)) => github_parts(url@) == Some((owner@, repo@)),
            Err(e) => github_parts(url@) is None && e.kind == GrammarErrorKind::InvalidGithubUrl
                && e.message@ == invalid_github_message(url@),
        },
{
    let prefix = "https://github.com/";
    let plen = chars_of(prefix).len();
    if !has_prefix(url, prefix) {
        return Err(
            GrammarError {
                kind: GrammarErrorKind::InvalidGithubUrl,
                message: concat_strs("invalid GitHub grammar URL: ", url),
            },
        );
    }
    let v = chars_of(url);
    let i = find_char_from(&v, '/', plen);
    if i == v.len() {
        proof {
            let rest = url@.skip(plen as int);
            assert(v@.skip(plen as int) =~= rest);
        }
        return Err(
            GrammarError {
                kind: GrammarErrorKind::InvalidGithubUrl,
                message: concat_strs("invalid GitHub grammar URL: ", url),
            },
        );
    }
    let j = find_char_from(&v, '/', i + 1);
    let owner = string_of_range(&v, plen, i);
    let repo = string_of_range(&v, i + 1, j);
    proof {
        let rest = url@.skip(plen as int);
        assert(v@.skip(plen as int) =~= rest);
        let si = segment_len(rest, '/');
        assert(si == i - plen);
        assert(rest.take(si as int) =~= v@.subrange(plen as int, i as int));
        let after = rest.skip(si + 1 as int);
        assert(after =~= v@.skip(i + 1));
        assert(after.take(segment_len(after, '/') as int) =~= v@.subrange(i + 1, j as int));
    }
    Ok((owner, repo))
}

/// `s` without trailing `c` characters.
pub open spec fn trim_end_char(s: Seq<char>, c: char) -> Seq<char>
    decreases s.len(),
{
    if s.len() > 0 && s.last() == c {
        trim_end_char(s.drop_last(), c)
    } else {
        s
    }
}

/// The release archive URL for Codeberg and SourceHut repositories:
/// `<url without trailing slashes>/archive/<rev>.tar.gz`.
pub open spec fn archive_url_spec(git: Seq<char>, rev: Seq<char>) -> Option<Seq<char>> {
    let trimmed = trim_end_char(git, '/');
    if codeberg_prefix().is_prefix_of(trimmed) || sourcehut_prefix().is_prefix_of(trimmed) {
        Some(trimmed + "/archive/"@ + rev + ".tar.gz"@)
    } else {
        None
    }
}

proof fn lemma_trim_end_char_take(s: Seq<char>, c: char, j: int)
    requires
        0 <= j <= s.len(),
        forall|k: int| j <= k < s.len() ==> #[trigger] s[k] == c,
    ensures
        trim_end_char(s, c) == trim_end_char(s.take(j), c),
    decreases s.len() - j,
{
    if j < s.len() {
        assert(s.drop_last() =~= s.take(s.len() - 1));
        assert(s.take(s.len() - 1).take(j) =~= s.take(j));
        lemma_trim_end_char_take(s.take(s.len() - 1), c, j);
    } else {
        assert(s.take(j) =~= s);
    }
}

/// The archive URL to fetch `git` at `rev` from, for hosts that serve
/// release archives.
pub fn archive_url(git: &str, rev: &str) -> (r: Option<String>)
    ensures
        match r {
            Some(u) => archive_url_spec(git@, rev@) == Some(u@),
            None => archive_url_spec(git@, rev@) is None,
        },
{
    let v = chars_of(git);
    let mut j = v.len();
    while j > 0 && v[j - 1] == '/'
        invariant
            j <= v.len(),
            v@ == git@,
            forall|k: int| j <= k < v.len() ==> #[trigger] v@[k] == '/',
        decreases j,
    {
        j = j - 1;
    }
    proof {
        lemma_trim_end_char_take(v@, '/', j as int);
        if j > 0 {
            assert(v@.take(j as int).last() == v@[j - 1]);
        }
    }
    let trimmed = string_of_range(&v, 0, j);
    assert(trimmed@ =~= v@.take(j as int));
    if has_prefix(trimmed.as_str(), "https://codeberg.org/") || has_prefix(
        trimmed.as_str(),
        "https://git.sr.ht/",
    ) {
        let mut u = trimmed;
        u.append("/archive/");
        u.append(rev);
        u.append(".tar.gz");
        Some(u)
    } else {
        None
    }
}

/// The characters of each string.
pub open spec fn strings_view(v: Seq<String>) -> Seq<Seq<char>> {
    v.map_values(|s: String| s@)
}

/// Grammars whose repositories are fetched with only their `src` directory.
pub open spec fn src_only(s: GrammarSourceView) -> bool {
    ||| s.name == "rpmspec"@ && s.git == "https://gitlab.com/cryptomilk/tree-sitter-rpmspec"@
    ||| s.name == "wikitext"@ && s.git == "https://github.com/santhoshtr/tree-sitter-wikitext"@
}

/// The sparse checkout paths of a source, if it has any.
pub open spec fn sparse_spec(s: GrammarSourceView) -> Option<Seq<Seq<char>>> {
    if src_only(s) {
        Some(seq!["src"@])
    } else {
        None
    }
}

/// The sparse checkout paths, or none.
pub open spec fn sparse_or_empty(s: GrammarSourceView) -> Seq<Seq<char>> {
    match sparse_spec(s) {
        Some(p) => p,
        None => Seq::empty(),
    }
}

/// Sparse checkout paths of this grammar.
fn src_only_paths() -> (v: Vec<String>)
    ensures
        strings_view(v@) == seq!["src"@],
{
    let mut v: Vec<String> = Vec::new();
    v.push(String::from_str("src"));
    assert(strings_view(v@) =~= seq!["src"@]);
    v
}

impl GrammarSource {
    /// The paths to check out when only part of the repository is needed.
    pub fn sparse_checkout(&self) -> (r: Option<Vec<String>>)
        ensures
            match r {
                Some(v) => sparse_spec(self@) == Some(strings_view(v@)),
                None => sparse_spec(self@) is None,
            },
    {
        let src_only = (self.name == String::from_str("rpmspec") && self.git == String::from_str(
            "https://gitlab.com/cryptomilk/tree-sitter-rpmspec",
        )) || (self.name == String::from_str("wikitext") && self.git == String::from_str(
            "https://github.com/santhoshtr/tree-sitter-wikitext",
        ));
        if src_only {
            Some(src_only_paths())
        } else {
            None
        }
    }

    fn sparse_checkout_or_empty(&self) -> (v: Vec<String>)
        ensures
            strings_view(v@) == sparse_or_empty(self@),
    {
        match self.sparse_checkout() {
            Some(v) => v,
            None => {
                let v: Vec<String> = Vec::new();
                assert(strings_view(v@) =~= Seq::<Seq<char>>::empty());
                v
            },
        }
    }
}

/// How a source is prefetched.
#[derive(Debug, Clone, Copy, PartialEq, Eq, Structural, Hash)]
pub enum PrefetchKind {
    Github,
    Archive,
    Git,
}

/// What identifies one prefetch: sources with equal keys share a hash.
#[derive(Debug)]
pub struct PrefetchKey {
    pub kind: PrefetchKind,
    pub identity: String,
    pub rev: String,
    pub sparse_checkout: Vec<String>,
}

/// The abstract value of a [`PrefetchKey`].
pub ghost struct PrefetchKeyView {
    pub kind: PrefetchKind,
    pub identity: Seq<char>,
    pub rev: Seq<char>,
    pub sparse_checkout: Seq<Seq<char>>,
}

impl View for PrefetchKey {
    type V = PrefetchKeyView;

    open spec fn view(&self) -> PrefetchKeyView {
        PrefetchKeyView {
            kind: self.kind,
            identity: self.identity@,
            rev: self.rev@,
            sparse_checkout: strings_view(self.sparse_checkout@),
        }
    }
}

/// The prefetch key of a source: GitHub sources by `owner/repo`, archive
/// sources by archive URL, others by git URL; each with the revision and
/// sparse paths. `None` for a GitHub URL without owner/repository.
pub open spec fn source_key(s: GrammarSourceView) -> Option<PrefetchKeyView> {
    let sparse = sparse_or_empty(s);
    if github_prefix().is_prefix_of(s.git) {
        match github_parts(s.git) {
            Some((owner, repo)) => Some(
                PrefetchKeyView {
                    kind: PrefetchKind::Github,
                    identity: owner + "/"@ + repo,
                    rev: s.rev,
                    sparse_checkout: sparse,
                },
            ),
            None => None,
        }
    } else {
        match archive_url_spec(s.git, s.rev) {
            Some(url) => Some(
                PrefetchKeyView {
                    kind: PrefetchKind::Archive,
                    identity: url,
                    rev: s.rev,
                    sparse_checkout: sparse,
                },
            ),
            None => Some(
                PrefetchKeyView {
                    kind: PrefetchKind::Git,
                    identity: s.git,
                    rev: s.rev,
                    sparse_checkout: sparse,
                },
            ),
        }
    }
}

impl GrammarSource {
    /// The key under which this source is prefetched.
    pub fn prefetch_key(&self) -> (r: Result<PrefetchKey, GrammarError>)
        ensures
            match r {
                Ok(k) => source_key(self@) == Some(k@),
                Err(e) => source_key(self@) is None && e.kind == GrammarErrorKind::InvalidGithubUrl
                    && e.message@ == invalid_github_message(self.git@),
            },
    {
        let sparse_checkout = self.sparse_checkout_or_empty();
        if has_prefix(self.git.as_str(), "https://github.com/") {
            let (owner, repo) = parse_github(self.git.as_str())?;
            let mut identity = owner;
            identity.append("/");
            identity.append(repo.as_str());
            Ok(
                PrefetchKey {
                    kind: PrefetchKind::Github,
                    identity,
                    rev: self.rev.clone(),
                    sparse_checkout,
                },
            )
        } else if let Some(url) = archive_url(self.git.as_str(), self.rev.as_str()) {
            Ok(
                PrefetchKey {
                    kind: PrefetchKind::Archive,
                    identity: url,
                    rev: self.rev.clone(),
                    sparse_checkout,
                },
            )
        } else {
            Ok(
                PrefetchKey {
                    kind: PrefetchKind::Git,
                    identity: self.git.clone(),
                    rev: self.rev.clone(),
                    sparse_checkout,
                },
            )
        }
    }
}

/// Whether two lists of strings are equal.
pub fn strings_eq(a: &Vec<String>, b: &Vec<String>) -> (r: bool)
    ensures
        r == (strings_view(a@) == strings_view(b@)),
{
    if a.len() != b.len() {
        assert(strings_view(a@).len() != strings_view(b@).len());
        return false;
    }
    let mut i: usize = 0;
    while i < a.len()
        invariant
            i <= a.len() == b.len(),
            forall|k: int| 0 <= k < i ==> a@[k]@ == b@[k]@,
        decreases a.len() - i,
    {
        if a[i] != b[i] {
            assert(strings_view(a@)[i as int] != strings_view(b@)[i as int]);
            return false;
        }
        i = i + 1;
    }
    assert(strings_view(a@) =~= strings_view(b@));
    true
}

impl PrefetchKey {
    /// Whether two keys are equal.
    pub fn same_as(&self, other: &PrefetchKey) -> (r: bool)
        ensures
            r == (self@ == other@),
    {
        self.kind == other.kind && self.identity == other.identity && self.rev == other.rev
            && strings_eq(&self.sparse_checkout, &other.sparse_checkout)
    }
}

/// One entry of the grammar lock file.
#[derive(Debug)]
pub struct GrammarLockEntry {
    pub fetcher: String,
    pub hash: String,
    pub owner: Option<String>,
    pub repo: Option<String>,
    pub rev: String,
    pub sparse_checkout: Option<Vec<String>>,
    pub url: Option<String>,
}

/// The abstract value of a [`GrammarLockEntry`].
pub ghost struct LockEntryView {
    pub fetcher: Seq<char>,
    pub hash: Seq<char>,
    pub owner: Option<Seq<char>>,
    pub repo: Option<Seq<char>>,
    pub rev: Seq<char>,
    pub sparse_checkout: Option<Seq<Seq<char>>>,
    pub url: Option<Seq<char>>,
}

/// The view of an optional string.
pub open spec fn opt_string_view(o: Option<String>) -> Option<Seq<char>> {
    match o {
        Some(s) => Some(s@),
        None => None,
    }
}

/// The view of an optional list of strings.
pub open spec fn opt_strings_view(o: Option<Vec<String>>) -> Option<Seq<Seq<char>>> {
    match o {
        Some(v) => Some(strings_view(v@)),
        None => None,
    }
}

impl View for GrammarLockEntry {
    type V = LockEntryView;

    open spec fn view(&self) -> LockEntryView {
        LockEntryView {
            fetcher: self.fetcher@,
            hash: self.hash@,
            owner: opt_string_view(self.owner),
            repo: opt_string_view(self.repo),
            rev: self.rev@,
            sparse_checkout: opt_strings_view(self.sparse_checkout),
            url: opt_string_view(self.url),
        }
    }
}

/// The lock entry for a source with the prefetched `hash`: a `github`
/// fetcher with owner and repository, an `archive` or `git` fetcher with
/// the source URL. `None` for a GitHub URL without owner/repository.
pub open spec fn lock_entry_spec(s: GrammarSourceView, hash: Seq<char>) -> Option<LockEntryView> {
    let sparse = sparse_spec(s);
    if github_prefix().is_prefix_of(s.git) {
        match github_parts(s.git) {
            Some((owner, repo)) => Some(
                LockEntryView {
                    fetcher: "github"@,
                    hash,
                    owner: Some(owner),
                    repo: Some(repo),
                    rev: s.rev,
                    sparse_checkout: sparse,
                    url: None,
                },
            ),
            None => None,
        }
    } else if archive_url_spec(s.git, s.rev) is Some {
        Some(
            LockEntryView {
                fetcher: "archive"@,
                hash,
                owner: None,
                repo: None,
                rev: s.rev,
                sparse_checkout: sparse,
                url: Some(s.git),
            },
        )
    } else {
        Some(
            LockEntryView {
                fetcher: "git"@,
                hash,
                owner: None,
                repo: None,
                rev: s.rev,
                sparse_checkout: sparse,
                url: Some(s.git),
            },
        )
    }
}

impl GrammarSource {
    /// The lock entry recording this source with its prefetched `hash`.
    pub fn lock_entry(&self, hash: &str) -> (r: Result<GrammarLockEntry, GrammarError>)
        ensures
            match r {
                Ok(e) => lock_entry_spec(self@, hash@) == Some(e@),
                Err(e) => lock_entry_spec(self@, hash@) is None && e.kind
                    == GrammarErrorKind::InvalidGithubUrl && e.message@ == invalid_github_message(
                    self.git@,
                ),
            },
    {
        let sparse_checkout = self.sparse_checkout();
        if has_prefix(self.git.as_str(), "https://github.com/") {
            let (owner, repo) = parse_github(self.git.as_str())?;
            Ok(
                GrammarLockEntry {
                    fetcher: String::from_str("github"),
                    hash: String::from_str(hash),
                    owner: Some(owner),
                    repo: Some(repo),
                    rev: self.rev.clone(),
                    sparse_checkout,
                    url: None,
                },
            )
        } else if archive_url(self.git.as_str(), self.rev.as_str()).is_some() {
            Ok(
                GrammarLockEntry {
                    fetcher: String::from_str("archive"),
                    hash: String::from_str(hash),
                    owner: None,
                    repo: None,
                    rev: self.rev.clone(),
                    sparse_checkout,
                    url: Some(self.git.clone()),
                },
            )
        } else {
            Ok(
                GrammarLockEntry {
                    fetcher: String::from_str("git"),
                    hash: String::from_str(hash),
                    owner: None,
                    repo: None,
                    rev: self.rev.clone(),
                    sparse_checkout,
                    url: Some(self.git.clone()),
                },
            )
        }
    }
}


proof fn lemma_trim_end_char_is_prefix(s: Seq<char>, c: char)
    ensures
        trim_end_char(s, c).is_prefix_of(s),
    decreases s.len(),
{
    if s.len() > 0 && s.last() == c {
        lemma_trim_end_char_is_prefix(s.drop_last(), c);
        let t = trim_end_char(s.drop_last(), c);
        assert forall|i: int| 0 <= i < t.len() implies t[i] == s[i] by {
            assert(t[i] == s.drop_last()[i]);
        }
    }
}

/// A URL served as a release archive (Codeberg or SourceHut) is never a
/// GitHub URL, so exactly one fetcher rule applies to it.
pub proof fn lemma_archive_url_not_github(git: Seq<char>, rev: Seq<char>)
    requires
        archive_url_spec(git, rev) is Some,
    ensures
        !github_prefix().is_prefix_of(git),
{
    reveal_strlit("https://github.com/");
    reveal_strlit("https://codeberg.org/");
    reveal_strlit("https://git.sr.ht/");
    let t = trim_end_char(git, '/');
    lemma_trim_end_char_is_prefix(git, '/');
    if github_prefix().is_prefix_of(git) {
        let g = github_prefix();
        assert(g[8] == 'g' && g[11] == 'h');
        assert(git.subrange(0, g.len() as int)[8] == git[8]);
        assert(git.subrange(0, g.len() as int)[11] == git[11]);
        if codeberg_prefix().is_prefix_of(t) {
            let c = codeberg_prefix();
            assert(c[8] == 'c');
            assert(t.subrange(0, c.len() as int)[8] == t[8]);
            assert(git.subrange(0, t.len() as int)[8] == git[8]);
        } else {
            let h = sourcehut_prefix();
            assert(h[11] == '.');
            assert(t.subrange(0, h.len() as int)[11] == t[11]);
            assert(git.subrange(0, t.len() as int)[11] == git[11]);
        }
    }
}

/// The grammars fetched with only their `src` directory: `rpmspec` from
/// its GitLab repository and `wikitext` from its GitHub repository.
pub open spec fn is_src_only_grammar(name: Seq<char>, git: Seq<char>) -> bool {
    ||| name == "rpmspec"@ && git == "https://gitlab.com/cryptomilk/tree-sitter-rpmspec"@
    ||| name == "wikitext"@ && git == "https://github.com/santhoshtr/tree-sitter-wikitext"@
}

/// Every lock entry records the source's revision and hash, and its sparse
/// checkout paths whatever the fetcher: `["src"]` for the two src-only
/// grammars and none for any other. Its fetcher is `github` for GitHub
/// URLs, `archive` for URLs served as release archives, and `git`
/// otherwise; the latter two record the source URL.
pub proof fn lemma_lock_entry_records_source(s: GrammarSourceView, hash: Seq<char>)
    ensures
        lock_entry_spec(s, hash) is Some <==> (github_prefix().is_prefix_of(s.git) ==> github_parts(
            s.git,
        ) is Some),
        lock_entry_spec(s, hash) matches Some(e) ==> {
            &&& e.rev == s.rev
            &&& e.hash == hash
            &&& e.sparse_checkout == (if is_src_only_grammar(s.name, s.git) {
                Some(seq!["src"@])
            } else {
                None
            })
            &&& github_prefix().is_prefix_of(s.git) ==> e.fetcher == "github"@ && e.url is None
            &&& !github_prefix().is_prefix_of(s.git) && archive_url_spec(s.git, s.rev) is Some
                ==> e.fetcher == "archive"@ && e.url == Some(s.git)
            &&& !github_prefix().is_prefix_of(s.git) && archive_url_spec(s.git, s.rev) is None
                ==> e.fetcher == "git"@ && e.url == Some(s.git)
        },
{
}

} // verus!
