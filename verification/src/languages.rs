//! The grammars that `languages.toml` makes active, sorted by name.
//!
//! The caller reads the file; `toml` parses it, and the values that
//! selection looks at are kept as plain strings (or nothing, when they are
//! absent or not strings).

use vstd::prelude::*;

use crate::bridge_env::opt_view;
use crate::grammar_source::{GrammarError, GrammarErrorKind, GrammarSource, GrammarSourceView};
use crate::text::chars_of;
use toml::Value;

verus! {

/// One `[[grammar]]` table: its `name`, and the `git` and `rev` of its
/// `source` table, each present only when it is a string.
#[derive(Debug, Clone)]
pub struct GrammarDecl {
    pub name: Option<String>,
    pub git: Option<String>,
    pub rev: Option<String>,
}

/// What grammar selection reads from `languages.toml`: the items of the
/// `use-grammars.only` and `use-grammars.except` arrays (each present only
/// when it is a string) and the `grammar` array.
#[derive(Debug, Clone)]
pub struct LanguagesConfig {
    pub only: Option<Vec<Option<String>>>,
    pub except: Option<Vec<Option<String>>>,
    pub grammars: Option<Vec<GrammarDecl>>,
}

/// The abstract value of a [`GrammarDecl`].
pub ghost struct GrammarDeclView {
    pub name: Option<Seq<char>>,
    pub git: Option<Seq<char>>,
    pub rev: Option<Seq<char>>,
}

impl View for GrammarDecl {
    type V = GrammarDeclView;

    open spec fn view(&self) -> GrammarDeclView {
        GrammarDeclView {
            name: opt_view(self.name),
            git: opt_view(self.git),
            rev: opt_view(self.rev),
        }
    }
}

/// The abstract value of a [`LanguagesConfig`].
pub ghost struct LanguagesConfigView {
    pub only: Option<Seq<Option<Seq<char>>>>,
    pub except: Option<Seq<Option<Seq<char>>>>,
    pub grammars: Option<Seq<GrammarDeclView>>,
}

/// The views of a list of optional strings.
pub open spec fn opt_strings_view(v: Seq<Option<String>>) -> Seq<Option<Seq<char>>> {
    v.map_values(|o: Option<String>| opt_view(o))
}

/// The views of a list of grammar tables.
pub open spec fn decls_view(v: Seq<GrammarDecl>) -> Seq<GrammarDeclView> {
    v.map_values(|d: GrammarDecl| d@)
}

impl View for LanguagesConfig {
    type V = LanguagesConfigView;

    open spec fn view(&self) -> LanguagesConfigView {
        LanguagesConfigView {
            only: match self.only {
                Some(v) => Some(opt_strings_view(v@)),
                None => None,
            },
            except: match self.except {
                Some(v) => Some(opt_strings_view(v@)),
                None => None,
            },
            grammars: match self.grammars {
                Some(v) => Some(decls_view(v@)),
                None => None,
            },
        }
    }
}

/// `name` is one of the string items.
pub open spec fn listed(items: Seq<Option<Seq<char>>>, name: Seq<char>) -> bool {
    exists|i: int| 0 <= i < items.len() && #[trigger] items[i] == Some(name)
}

/// The source a grammar table declares, when it is selected and complete.
pub open spec fn decl_source(config: LanguagesConfigView, d: GrammarDeclView) -> Option<
    GrammarSourceView,
> {
    match (d.name, d.git, d.rev) {
        (Some(name), Some(git), Some(rev)) => {
            let only_ok = match config.only {
                Some(only) => listed(only, name),
                None => true,
            };
            let except_ok = match config.except {
                Some(except) => !listed(except, name),
                None => true,
            };
            if only_ok && except_ok {
                Some(GrammarSourceView { name, git, rev })
            } else {
                None
            }
        },
        _ => None,
    }
}

/// The selected sources of the first `n` grammar tables, in file order.
pub open spec fn kept_prefix(config: LanguagesConfigView, decls: Seq<GrammarDeclView>, n: int) -> Seq<
    GrammarSourceView,
>
    decreases n,
{
    if n <= 0 {
        Seq::empty()
    } else {
        let prev = kept_prefix(config, decls, n - 1);
        match decl_source(config, decls[n - 1]) {
            Some(s) => prev.push(s),
            None => prev,
        }
    }
}

/// The selected sources, in file order.
pub open spec fn kept_sources(config: LanguagesConfigView) -> Seq<GrammarSourceView> {
    match config.grammars {
        Some(g) => kept_prefix(config, g, g.len() as int),
        None => Seq::empty(),
    }
}

/// Lexicographic order of names by character code (the order of `String`).
pub open spec fn name_le(a: Seq<char>, b: Seq<char>) -> bool
    decreases a.len(),
{
    if a.len() == 0 {
        true
    } else if b.len() == 0 {
        false
    } else if a[0] != b[0] {
        a[0] < b[0]
    } else {
        name_le(a.drop_first(), b.drop_first())
    }
}

/// `s` with `x` inserted after every element whose name is not greater.
pub open spec fn insert_by_name(s: Seq<GrammarSourceView>, x: GrammarSourceView) -> Seq<
    GrammarSourceView,
>
    decreases s.len(),
{
    if s.len() == 0 {
        seq![x]
    } else if name_le(s.last().name, x.name) {
        s.push(x)
    } else {
        insert_by_name(s.drop_last(), x).push(s.last())
    }
}

/// `s` stably sorted by name.
pub open spec fn sort_by_name(s: Seq<GrammarSourceView>) -> Seq<GrammarSourceView>
    decreases s.len(),
{
    if s.len() == 0 {
        Seq::empty()
    } else {
        insert_by_name(sort_by_name(s.drop_last()), s.last())
    }
}

/// The views of a list of sources.
pub open spec fn sources_view(v: Seq<GrammarSource>) -> Seq<GrammarSourceView> {
    v.map_values(|s: GrammarSource| s@)
}

/// Whether `name` is one of the string items.
fn is_listed(items: &Vec<Option<String>>, name: &String) -> (b: bool)
    ensures
        b == listed(opt_strings_view(items@), name@),
{
    let ghost iv = opt_strings_view(items@);
    let mut i: usize = 0;
    while i < items.len()
        invariant
            i <= items.len(),
            iv == opt_strings_view(items@),
            forall|k: int| 0 <= k < i ==> #[trigger] iv[k] != Some(name@),
        decreases items.len() - i,
    {
        assert(iv[i as int] == opt_view(items@[i as int]));
        match &items[i] {
            Some(s) => {
                if *s == *name {
                    assert(iv[i as int] == Some(name@));
                    return true;
                }
            },
            None => {},
        }
        i = i + 1;
    }
    false
}

/// Whether name `a` sorts before or equal to name `b`.
pub fn name_le_exec(a: &str, b: &str) -> (r: bool)
    ensures
        r == name_le(a@, b@),
{
    let va = chars_of(a);
    let vb = chars_of(b);
    let mut i: usize = 0;
    assert(va@.skip(0) =~= va@);
    assert(vb@.skip(0) =~= vb@);
    while i < va.len() && i < vb.len() && va[i] == vb[i]
        invariant
            i <= va.len(),
            i <= vb.len(),
            name_le(va@, vb@) == name_le(va@.skip(i as int), vb@.skip(i as int)),
        decreases va.len() - i,
    {
        proof {
            let sa = va@.skip(i as int);
            let sb = vb@.skip(i as int);
            assert(sa.drop_first() =~= va@.skip(i + 1));
            assert(sb.drop_first() =~= vb@.skip(i + 1));
        }
        i = i + 1;
    }
    proof {
        let sa = va@.skip(i as int);
        let sb = vb@.skip(i as int);
        if i < va.len() && i < vb.len() {
            assert(sa[0] == va@[i as int]);
            assert(sb[0] == vb@[i as int]);
        }
    }
    if i == va.len() {
        true
    } else if i == vb.len() {
        false
    } else {
        va[i] < vb[i]
    }
}

proof fn lemma_insert_step(s: Seq<GrammarSourceView>, x: GrammarSourceView, j: int)
    requires
        0 <= j < s.len(),
        !name_le(s[j].name, x.name),
    ensures
        insert_by_name(s.take(j + 1), x) + s.skip(j + 1) == insert_by_name(s.take(j), x) + s.skip(
            j,
        ),
{
    let t = s.take(j + 1);
    assert(t.last() == s[j]);
    assert(t.drop_last() =~= s.take(j));
    assert(insert_by_name(t, x) == insert_by_name(s.take(j), x).push(s[j]));
    assert(insert_by_name(s.take(j), x).push(s[j]) + s.skip(j + 1) =~= insert_by_name(
        s.take(j),
        x,
    ) + s.skip(j));
}

/// Inserts `x` into `r` as [`insert_by_name`] does.
fn insert_source_by_name(r: &mut Vec<GrammarSource>, x: GrammarSource)
    ensures
        sources_view(final(r)@) == insert_by_name(sources_view(old(r)@), x@),
{
    let ghost s = sources_view(r@);
    let mut j = r.len();
    proof {
        assert(s.take(s.len() as int) =~= s);
        assert(s.skip(s.len() as int) =~= Seq::<GrammarSourceView>::empty());
        assert(insert_by_name(s, x@) =~= insert_by_name(s.take(j as int), x@) + s.skip(j as int));
    }
    while j > 0 && !name_le_exec(r[j - 1].name.as_str(), x.name.as_str())
        invariant
            j <= r.len(),
            s == sources_view(r@),
            insert_by_name(s, x@) == insert_by_name(s.take(j as int), x@) + s.skip(j as int),
        decreases j,
    {
        proof {
            lemma_insert_step(s, x@, j - 1);
        }
        j = j - 1;
    }
    proof {
        let t = s.take(j as int);
        if j > 0 {
            assert(t.last() == s[j - 1]);
            assert(insert_by_name(t, x@) == t.push(x@));
        } else {
            assert(t.len() == 0);
        }
    }
    r.insert(j, x);
    assert(sources_view(r@) =~= insert_by_name(s, x@));
}

/// The sources stably sorted by name.
fn sort_sources_by_name(v: &Vec<GrammarSource>) -> (r: Vec<GrammarSource>)
    ensures
        sources_view(r@) == sort_by_name(sources_view(v@)),
{
    let mut r: Vec<GrammarSource> = Vec::new();
    let mut i: usize = 0;
    while i < v.len()
        invariant
            i <= v.len(),
            sources_view(r@) == sort_by_name(sources_view(v@).take(i as int)),
        decreases v.len() - i,
    {
        proof {
            let t = sources_view(v@).take(i + 1);
            assert(t.drop_last() =~= sources_view(v@).take(i as int));
            assert(t.last() == v@[i as int]@);
        }
        insert_source_by_name(&mut r, v[i].duplicate());
        i = i + 1;
    }
    assert(sources_view(v@).take(v.len() as int) =~= sources_view(v@));
    r
}

/// The grammars `languages.toml` makes active: every `[[grammar]]` with a
/// string `name` and a `source` with string `git` and `rev`, listed in
/// `use-grammars.only` when that array exists and not listed in
/// `use-grammars.except`, stably sorted by name.
pub fn active_grammar_sources(config: &LanguagesConfig) -> (r: Result<Vec<GrammarSource>, GrammarError>)
    ensures
        r matches Ok(v) && sources_view(v@) == sort_by_name(kept_sources(config@)),
{
    let mut kept: Vec<GrammarSource> = Vec::new();
    match &config.grammars {
        None => {
            assert(sources_view(kept@) =~= Seq::<GrammarSourceView>::empty());
        },
        Some(grammars) => {
            let mut i: usize = 0;
            while i < grammars.len()
                invariant
                    i <= grammars.len(),
                    config.grammars == Some(*grammars),
                    sources_view(kept@) == kept_prefix(config@, decls_view(grammars@), i as int),
                decreases grammars.len() - i,
            {
                let d = &grammars[i];
                assert(decls_view(grammars@)[i as int] == d@);
                match (&d.name, &d.git, &d.rev) {
                    (Some(name), Some(git), Some(rev)) => {
                        let only_ok = match &config.only {
                            Some(only) => is_listed(only, name),
                            None => true,
                        };
                        let except_ok = match &config.except {
                            Some(except) => !is_listed(except, name),
                            None => true,
                        };
                        if only_ok && except_ok {
                            kept.push(
                                GrammarSource {
                                    name: name.clone(),
                                    git: git.clone(),
                                    rev: rev.clone(),
                                },
                            );
                        }
                    },
                    _ => {},
                }
                assert(sources_view(kept@) =~= kept_prefix(config@, decls_view(grammars@), i + 1));
                i = i + 1;
            }
        },
    }
    Ok(sort_sources_by_name(&kept))
}

/// What selection reads from the text of `languages.toml`: `None` when
/// the text is not TOML, else, for each value it looks at, that value when
/// it is a string.
pub uninterp spec fn languages_of_toml(contents: Seq<char>) -> Option<LanguagesConfigView>;

/// Parses `languages.toml` with `toml::from_str` into a `toml::Value` and
/// reads with `Value::get`, `Value::as_str` and `Value::as_array` the items
/// of `use-grammars.only` and `use-grammars.except` and, for each table of
/// the `grammar` array, its `name` and its `source.git` and `source.rev`.
/// Trusted: `Err` exactly when `toml` refuses the text, otherwise what
/// [`languages_of_toml`] names. The text of `toml`'s error is left unsaid.
#[verifier::external_body]
pub(crate) fn parse_languages_config(contents: &str) -> (r: Result<LanguagesConfig, String>)
    ensures
        match r {
            Ok(c) => languages_of_toml(contents@) == Some(c@),
            Err(_) => languages_of_toml(contents@) is None,
        },
{
    let doc: Value = toml::from_str(contents).map_err(|e| e.to_string())?;
    let text = |v: &Value| v.as_str().map(str::to_string);
    let texts = |k| Some(doc.get("use-grammars")?.get(k)?.as_array()?.iter().map(text).collect());
    let grammars = || Some(doc.get("grammar")?.as_array()?.iter().map(|g| {
        let source = |k| g.get("source")?.get(k).and_then(text);
        GrammarDecl { name: g.get("name").and_then(text), git: source("git"), rev: source("rev") }
    }).collect());
    Ok(LanguagesConfig { only: texts("only"), except: texts("except"), grammars: grammars() })
}

/// The active grammars of the text of `languages.toml` (see
/// [`active_grammar_sources`]), or an error when it is not TOML.
pub fn active_sources_of(contents: &str) -> (r: Result<Vec<GrammarSource>, GrammarError>)
    ensures
        match languages_of_toml(contents@) {
            Some(config) => r matches Ok(v) && sources_view(v@) == sort_by_name(
                kept_sources(config),
            ),
            None => r matches Err(e) && e.kind == GrammarErrorKind::InvalidLanguagesToml,
        },
{
    match parse_languages_config(contents) {
        Ok(config) => active_grammar_sources(&config),
        Err(message) => Err(GrammarError { kind: GrammarErrorKind::InvalidLanguagesToml, message }),
    }
}

/// Every name is ordered before or equal to every later one.
pub open spec fn sorted_by_name(s: Seq<GrammarSourceView>) -> bool {
    forall|i: int, j: int| 0 <= i < j < s.len() ==> name_le(#[trigger] s[i].name, #[trigger] s[j].name)
}

/// Any two names are ordered one way or the other.
pub proof fn lemma_name_le_total(a: Seq<char>, b: Seq<char>)
    ensures
        name_le(a, b) || name_le(b, a),
    decreases a.len(),
{
    if a.len() > 0 && b.len() > 0 && a[0] == b[0] {
        lemma_name_le_total(a.drop_first(), b.drop_first());
    }
}

/// The order of names is transitive.
pub proof fn lemma_name_le_transitive(a: Seq<char>, b: Seq<char>, c: Seq<char>)
    requires
        name_le(a, b),
        name_le(b, c),
    ensures
        name_le(a, c),
    decreases a.len(),
{
    if a.len() > 0 && b.len() > 0 && c.len() > 0 && a[0] == b[0] && b[0] == c[0] {
        lemma_name_le_transitive(a.drop_first(), b.drop_first(), c.drop_first());
    }
}

proof fn lemma_insert_members(s: Seq<GrammarSourceView>, x: GrammarSourceView)
    ensures
        insert_by_name(s, x).len() == s.len() + 1,
        forall|k: int|
            0 <= k < s.len() + 1 ==> #[trigger] insert_by_name(s, x)[k] == x || s.contains(
                insert_by_name(s, x)[k],
            ),
    decreases s.len(),
{
    if s.len() > 0 {
        if name_le(s.last().name, x.name) {
            let r = s.push(x);
            assert forall|k: int| 0 <= k < s.len() + 1 implies #[trigger] r[k] == x || s.contains(
                r[k],
            ) by {
                if k < s.len() {
                    assert(r[k] == s[k]);
                }
            }
        } else {
            let p = s.drop_last();
            lemma_insert_members(p, x);
            let inner = insert_by_name(p, x);
            let r = inner.push(s.last());
            assert forall|k: int| 0 <= k < s.len() + 1 implies #[trigger] r[k] == x || s.contains(
                r[k],
            ) by {
                if k < s.len() {
                    assert(r[k] == inner[k]);
                    if inner[k] != x {
                        let m = choose|m: int| 0 <= m < p.len() && p[m] == inner[k];
                        assert(s[m] == p[m]);
                    }
                } else {
                    assert(r[k] == s[s.len() - 1]);
                }
            }
        }
    }
}

proof fn lemma_insert_sorted(s: Seq<GrammarSourceView>, x: GrammarSourceView)
    requires
        sorted_by_name(s),
    ensures
        sorted_by_name(insert_by_name(s, x)),
    decreases s.len(),
{
    if s.len() == 0 {
    } else if name_le(s.last().name, x.name) {
        let r = s.push(x);
        assert forall|i: int, j: int| 0 <= i < j < r.len() implies name_le(
            #[trigger] r[i].name,
            #[trigger] r[j].name,
        ) by {
            if j < s.len() {
                assert(r[i] == s[i] && r[j] == s[j]);
            } else if i < s.len() - 1 {
                assert(r[i] == s[i]);
                assert(name_le(s[i].name, s[s.len() - 1].name));
                lemma_name_le_transitive(s[i].name, s.last().name, x.name);
            }
        }
    } else {
        lemma_name_le_total(s.last().name, x.name);
        let p = s.drop_last();
        assert(sorted_by_name(p)) by {
            assert forall|i: int, j: int| 0 <= i < j < p.len() implies name_le(
                #[trigger] p[i].name,
                #[trigger] p[j].name,
            ) by {
                assert(p[i] == s[i] && p[j] == s[j]);
            }
        }
        lemma_insert_sorted(p, x);
        lemma_insert_members(p, x);
        let inner = insert_by_name(p, x);
        let r = inner.push(s.last());
        assert forall|i: int, j: int| 0 <= i < j < r.len() implies name_le(
            #[trigger] r[i].name,
            #[trigger] r[j].name,
        ) by {
            if j < inner.len() {
                assert(r[i] == inner[i] && r[j] == inner[j]);
            } else {
                assert(r[i] == inner[i]);
                assert(r[j] == s.last());
                if inner[i] != x {
                    let m = choose|m: int| 0 <= m < p.len() && p[m] == inner[i];
                    assert(s[m] == p[m]);
                    assert(name_le(s[m].name, s[s.len() - 1].name));
                }
            }
        }
    }
}

/// Sorting by name yields a sequence sorted by name.
pub proof fn lemma_sort_by_name_sorted(s: Seq<GrammarSourceView>)
    ensures
        sorted_by_name(sort_by_name(s)),
    decreases s.len(),
{
    if s.len() > 0 {
        lemma_sort_by_name_sorted(s.drop_last());
        lemma_insert_sorted(sort_by_name(s.drop_last()), s.last());
    }
}

proof fn lemma_insert_multiset(s: Seq<GrammarSourceView>, x: GrammarSourceView)
    ensures
        insert_by_name(s, x).to_multiset() == s.to_multiset().insert(x),
    decreases s.len(),
{
    broadcast use vstd::seq_lib::group_to_multiset_ensures;

    if s.len() == 0 {
        assert(seq![x] =~= Seq::<GrammarSourceView>::empty().push(x));
    } else if name_le(s.last().name, x.name) {
    } else {
        let p = s.drop_last();
        lemma_insert_multiset(p, x);
        assert(p.push(s.last()) =~= s);
        assert(insert_by_name(s, x).to_multiset() =~= s.to_multiset().insert(x));
    }
}

/// Sorting by name keeps every element, as often as it occurs.
pub proof fn lemma_sort_by_name_permutes(s: Seq<GrammarSourceView>)
    ensures
        sort_by_name(s).to_multiset() == s.to_multiset(),
    decreases s.len(),
{
    broadcast use vstd::seq_lib::group_to_multiset_ensures;

    if s.len() > 0 {
        let p = s.drop_last();
        lemma_sort_by_name_permutes(p);
        lemma_insert_multiset(sort_by_name(p), s.last());
        assert(p.push(s.last()) =~= s);
    }
}

/// The active grammars come sorted by name, and are exactly the selected
/// grammar tables, each as often as it is declared.
pub proof fn lemma_active_sources_sorted_selection(config: LanguagesConfigView)
    ensures
        sorted_by_name(sort_by_name(kept_sources(config))),
        sort_by_name(kept_sources(config)).to_multiset() == kept_sources(config).to_multiset(),
{
    lemma_sort_by_name_sorted(kept_sources(config));
    lemma_sort_by_name_permutes(kept_sources(config));
}

} // verus!
