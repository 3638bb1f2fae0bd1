//! How each grammar source is prefetched with nix: which tool runs, with
//! which arguments, what its failures are reported as, and which hash its
//! JSON output gives. Running the tool is left to the caller.

use vstd::prelude::*;

use crate::grammar_source::{
    archive_url, archive_url_spec, github_parts, github_prefix, invalid_github_message,
    is_src_only_grammar, lock_entry_spec, source_key, PrefetchKind,
    parse_github, sparse_or_empty, strings_view, GrammarError, GrammarErrorKind, GrammarSource,
    GrammarSourceView,
};
use crate::bridge_env::opt_view;
use crate::text::{concat_strs, has_prefix};

verus! {

/// The prefetch to run for one source.
#[derive(Debug)]
pub enum PrefetchPlan {
    /// `nix-prefetch-github` for a GitHub repository.
    Github { owner: String, repo: String, rev: String },
    /// `nix store prefetch-file --unpack` for a release archive.
    Archive { url: String },
    /// `nix-prefetch-git`, with the given sparse checkout paths.
    Git { url: String, rev: String, sparse_checkout: Vec<String> },
}

/// The abstract value of a [`PrefetchPlan`].
pub ghost enum PrefetchPlanView {
    Github { owner: Seq<char>, repo: Seq<char>, rev: Seq<char> },
    Archive { url: Seq<char> },
    Git { url: Seq<char>, rev: Seq<char>, sparse_checkout: Seq<Seq<char>> },
}

impl View for PrefetchPlan {
    type V = PrefetchPlanView;

    open spec fn view(&self) -> PrefetchPlanView {
        match self {
            PrefetchPlan::Github { owner, repo, rev } => PrefetchPlanView::Github {
                owner: owner@,
                repo: repo@,
                rev: rev@,
            },
            PrefetchPlan::Archive { url } => PrefetchPlanView::Archive { url: url@ },
            PrefetchPlan::Git { url, rev, sparse_checkout } => PrefetchPlanView::Git {
                url: url@,
                rev: rev@,
                sparse_checkout: strings_view(sparse_checkout@),
            },
        }
    }
}

/// The prefetch for a source: git whenever sparse paths are needed, else
/// GitHub for GitHub URLs, an archive for archive hosts, and git otherwise.
/// `None` for a GitHub URL without owner/repository.
pub open spec fn prefetch_plan_spec(s: GrammarSourceView) -> Option<PrefetchPlanView> {
    let sparse = sparse_or_empty(s);
    if sparse.len() > 0 {
        Some(PrefetchPlanView::Git { url: s.git, rev: s.rev, sparse_checkout: sparse })
    } else if github_prefix().is_prefix_of(s.git) {
        match github_parts(s.git) {
            Some((owner, repo)) => Some(PrefetchPlanView::Github { owner, repo, rev: s.rev }),
            None => None,
        }
    } else {
        match archive_url_spec(s.git, s.rev) {
            Some(url) => Some(PrefetchPlanView::Archive { url }),
            None => Some(PrefetchPlanView::Git { url: s.git, rev: s.rev, sparse_checkout: sparse }),
        }
    }
}

/// Chooses how to prefetch `source`.
pub fn prefetch_source(source: &GrammarSource) -> (r: Result<PrefetchPlan, GrammarError>)
    ensures
        match r {
            Ok(p) => prefetch_plan_spec(source@) == Some(p@),
            Err(e) => prefetch_plan_spec(source@) is None && e.kind
                == GrammarErrorKind::InvalidGithubUrl && e.message@ == invalid_github_message(
                source.git@,
            ),
        },
{
    let sparse_checkout = match source.sparse_checkout() {
        Some(v) => v,
        None => {
            let v: Vec<String> = Vec::new();
            assert(strings_view(v@) =~= Seq::<Seq<char>>::empty());
            v
        },
    };
    if sparse_checkout.len() > 0 {
        Ok(
            PrefetchPlan::Git {
                url: source.git.clone(),
                rev: source.rev.clone(),
                sparse_checkout,
            },
        )
    } else if has_prefix(source.git.as_str(), "https://github.com/") {
        let (owner, repo) = parse_github(source.git.as_str())?;
        Ok(PrefetchPlan::Github { owner, repo, rev: source.rev.clone() })
    } else if let Some(url) = archive_url(source.git.as_str(), source.rev.as_str()) {
        Ok(PrefetchPlan::Archive { url })
    } else {
        Ok(
            PrefetchPlan::Git {
                url: source.git.clone(),
                rev: source.rev.clone(),
                sparse_checkout,
            },
        )
    }
}

/// `--sparse-checkout <path>` for each path, in order.
pub open spec fn sparse_args(paths: Seq<Seq<char>>) -> Seq<Seq<char>>
    decreases paths.len(),
{
    if paths.len() == 0 {
        Seq::empty()
    } else {
        sparse_args(paths.drop_last()) + seq!["--sparse-checkout"@, paths.last()]
    }
}

/// The arguments to `nix` for a prefetch.
pub open spec fn nix_args_spec(p: PrefetchPlanView) -> Seq<Seq<char>> {
    match p {
        PrefetchPlanView::Github { owner, repo, rev } => seq![
            "run"@,
            "nixpkgs#nix-prefetch-github"@,
            "--"@,
            "--json"@,
            "--rev"@,
            rev,
            owner,
            repo,
        ],
        PrefetchPlanView::Archive { url } => seq![
            "store"@,
            "prefetch-file"@,
            "--json"@,
            "--unpack"@,
            url,
        ],
        PrefetchPlanView::Git { url, rev, sparse_checkout } => seq![
            "run"@,
            "nixpkgs#nix-prefetch-git"@,
            "--"@,
            "--json"@,
            "--url"@,
            url,
            "--rev"@,
            rev,
        ] + sparse_args(sparse_checkout),
    }
}

fn push_str(v: &mut Vec<String>, s: &str)
    ensures
        strings_view(final(v)@) == strings_view(old(v)@).push(s@),
{
    v.push(String::from_str(s));
    assert(strings_view(v@) =~= strings_view(old(v)@).push(s@));
}

/// The message when the prefetch command fails with `stderr`.
pub open spec fn failure_message_spec(p: PrefetchPlanView, stderr: Seq<char>) -> Seq<char> {
    match p {
        PrefetchPlanView::Archive { url } => "nix archive prefetch failed for "@ + url + ": "@
            + stderr,
        _ => "nix prefetch failed: "@ + stderr,
    }
}

/// The message when the prefetch output names no hash.
pub open spec fn missing_hash_message_spec(p: PrefetchPlanView) -> Seq<char> {
    match p {
        PrefetchPlanView::Github { .. } => "nix-prefetch-github output missing hash"@,
        PrefetchPlanView::Archive { .. } => "nix store prefetch-file output missing hash"@,
        PrefetchPlanView::Git { .. } => "nix-prefetch-git output missing hash"@,
    }
}

/// What a prefetch tool's standard output says of the hash: `None` when
/// the bytes are not JSON, else the `hash` member when it is a string.
pub uninterp spec fn json_hash_of(stdout: Seq<u8>) -> Option<Option<Seq<char>>>;

/// Reads a prefetch tool's JSON output with `serde_json::from_slice` into a
/// `serde_json::Value` and takes its `hash` member as a string
/// (`Value::get`, then `Value::as_str`). Trusted: `Err` exactly when
/// serde_json refuses the bytes, otherwise the `hash` string or `None`, as
/// [`json_hash_of`] names it. The text of serde_json's error is left
/// unsaid.
#[verifier::external_body]
pub(crate) fn hash_of_json(stdout: &[u8]) -> (r: Result<Option<String>, String>)
    ensures
        match r {
            Ok(h) => json_hash_of(stdout@) == Some(opt_view(h)),
            Err(_) => json_hash_of(stdout@) is None,
        },
{
    let payload: serde_json::Value = serde_json::from_slice(stdout).map_err(|e| e.to_string())?;
    Ok(payload.get("hash").and_then(serde_json::Value::as_str).map(str::to_string))
}

impl PrefetchPlan {
    /// The arguments to pass to `nix` to run this prefetch.
    pub fn nix_args(&self) -> (r: Vec<String>)
        ensures
            strings_view(r@) == nix_args_spec(self@),
    {
        let mut v: Vec<String> = Vec::new();
        match self {
            PrefetchPlan::Github { owner, repo, rev } => {
                push_str(&mut v, "run");
                push_str(&mut v, "nixpkgs#nix-prefetch-github");
                push_str(&mut v, "--");
                push_str(&mut v, "--json");
                push_str(&mut v, "--rev");
                push_str(&mut v, rev.as_str());
                push_str(&mut v, owner.as_str());
                push_str(&mut v, repo.as_str());
                assert(strings_view(v@) =~= nix_args_spec(self@));
            },
            PrefetchPlan::Archive { url } => {
                push_str(&mut v, "store");
                push_str(&mut v, "prefetch-file");
                push_str(&mut v, "--json");
                push_str(&mut v, "--unpack");
                push_str(&mut v, url.as_str());
                assert(strings_view(v@) =~= nix_args_spec(self@));
            },
            PrefetchPlan::Git { url, rev, sparse_checkout } => {
                push_str(&mut v, "run");
                push_str(&mut v, "nixpkgs#nix-prefetch-git");
                push_str(&mut v, "--");
                push_str(&mut v, "--json");
                push_str(&mut v, "--url");
                push_str(&mut v, url.as_str());
                push_str(&mut v, "--rev");
                push_str(&mut v, rev.as_str());
                let ghost head = strings_view(v@);
                let mut i: usize = 0;
                while i < sparse_checkout.len()
                    invariant
                        i <= sparse_checkout.len(),
                        strings_view(v@) == head + sparse_args(
                            strings_view(sparse_checkout@).take(i as int),
                        ),
                    decreases sparse_checkout.len() - i,
                {
                    push_str(&mut v, "--sparse-checkout");
                    push_str(&mut v, sparse_checkout[i].as_str());
                    proof {
                        let p = strings_view(sparse_checkout@);
                        assert(p.take(i + 1).drop_last() =~= p.take(i as int));
                        assert(strings_view(v@) =~= head + sparse_args(p.take(i + 1)));
                    }
                    i = i + 1;
                }
                proof {
                    let p = strings_view(sparse_checkout@);
                    assert(p.take(sparse_checkout.len() as int) =~= p);
                }
            },
        }
        v
    }

    /// The message when the prefetch command fails with `stderr`.
    pub fn failure_message(&self, stderr: &str) -> (m: String)
        ensures
            m@ == failure_message_spec(self@, stderr@),
    {
        match self {
            PrefetchPlan::Archive { url } => {
                let mut m = concat_strs("nix archive prefetch failed for ", url.as_str());
                m.append(": ");
                m.append(stderr);
                m
            },
            _ => concat_strs("nix prefetch failed: ", stderr),
        }
    }

    /// The message when the prefetch output names no hash.
    pub fn missing_hash_message(&self) -> (m: String)
        ensures
            m@ == missing_hash_message_spec(self@),
    {
        match self {
            PrefetchPlan::Github { .. } => String::from_str("nix-prefetch-github output missing hash"),
            PrefetchPlan::Archive { .. } => String::from_str(
                "nix store prefetch-file output missing hash",
            ),
            PrefetchPlan::Git { .. } => String::from_str("nix-prefetch-git output missing hash"),
        }
    }

    /// What a prefetch gives once its JSON output is decoded: the hash, the
    /// missing-hash message when the output names none, or the decoder's
    /// message when the output is not JSON.
    pub fn prefetch_result(&self, decoded: Result<Option<String>, String>) -> (r: Result<
        String,
        String,
    >)
        ensures
            match decoded {
                Ok(Some(h)) => r matches Ok(v) && v@ == h@,
                Ok(None) => r matches Err(m) && m@ == missing_hash_message_spec(self@),
                Err(d) => r matches Err(m) && m@ == d@,
            },
    {
        match decoded {
            Ok(Some(h)) => Ok(h),
            Ok(None) => Err(self.missing_hash_message()),
            Err(d) => Err(d),
        }
    }

    /// What a finished prefetch run gives: the failure message with its
    /// standard error when the run failed; otherwise what its standard
    /// output says of the hash (see [`PrefetchPlan::prefetch_result`]).
    pub fn prefetch_outcome(&self, success: bool, stdout: &[u8], stderr: &str) -> (r: Result<
        String,
        String,
    >)
        ensures
            !success ==> (r matches Err(m) && m@ == failure_message_spec(self@, stderr@)),
            success ==> match json_hash_of(stdout@) {
                Some(Some(h)) => r matches Ok(v) && v@ == h,
                Some(None) => r matches Err(m) && m@ == missing_hash_message_spec(self@),
                None => r is Err,
            },
    {
        if !success {
            return Err(self.failure_message(stderr));
        }
        let decoded = hash_of_json(stdout);
        self.prefetch_result(decoded)
    }
}


/// A source without sparse paths that is not on GitHub is prefetched as a
/// release archive exactly when its URL is served as one (Codeberg or
/// SourceHut), from that archive URL; otherwise with git from its URL.
pub proof fn lemma_plan_follows_archive_url(s: GrammarSourceView)
    requires
        !is_src_only_grammar(s.name, s.git),
        !github_prefix().is_prefix_of(s.git),
    ensures
        archive_url_spec(s.git, s.rev) matches Some(url) ==> prefetch_plan_spec(s) == Some(
            PrefetchPlanView::Archive { url },
        ),
        archive_url_spec(s.git, s.rev) is None ==> prefetch_plan_spec(s) == Some(
            PrefetchPlanView::Git { url: s.git, rev: s.rev, sparse_checkout: Seq::empty() },
        ),
{
}

/// For a source without sparse paths, the way it is prefetched, the fetcher
/// its lock entry records and the kind of its prefetch key always agree
/// (and all three exist together), so the recorded hash is the hash of
/// what the lock tells nix to fetch.
pub proof fn lemma_plan_agrees_with_lock_and_key(s: GrammarSourceView, hash: Seq<char>)
    requires
        !is_src_only_grammar(s.name, s.git),
    ensures
        prefetch_plan_spec(s) is Some <==> lock_entry_spec(s, hash) is Some,
        prefetch_plan_spec(s) is Some <==> source_key(s) is Some,
        prefetch_plan_spec(s) matches Some(p) ==> {
            let e = lock_entry_spec(s, hash)->Some_0;
            let k = source_key(s)->Some_0;
            &&& (p is Github <==> e.fetcher == "github"@) && (p is Github <==> k.kind
                == PrefetchKind::Github)
            &&& (p is Archive <==> e.fetcher == "archive"@) && (p is Archive <==> k.kind
                == PrefetchKind::Archive)
            &&& (p is Git <==> e.fetcher == "git"@) && (p is Git <==> k.kind == PrefetchKind::Git)
        },
{
    reveal_strlit("github");
    reveal_strlit("archive");
    reveal_strlit("git");
    assert("github"@ != "archive"@ && "github"@ != "git"@ && "archive"@ != "git"@) by {
        assert("github"@[1] == 'i' && "archive"@[1] == 'r');
        assert("github"@.len() != "git"@.len());
        assert("archive"@[0] != "git"@[0]);
    }
}

} // verus!
