//! Character-level helpers shared by the bridge and the grammar lock:
//! Unicode whitespace trimming, literal comparison, decimal rendering and
//! `/`-separated path composition.

use vstd::prelude::*;

verus! {

/// Appends one character to a string by calling `String::push`. Trusted,
/// not proved: the contract states what the standard library documents,
/// that the string grows by `c` at its end.
#[verifier::external_body]
fn push_char(s: &mut String, c: char)
    ensures
        final(s)@ == old(s)@.push(c),
{
    s.push(c);
}

/// The characters of a string, in order.
pub fn chars_of(s: &str) -> (v: Vec<char>)
    ensures
        v@ == s@,
{
    let mut v: Vec<char> = Vec::new();
    let chars = s.chars();
    for c in it: chars
        invariant
            v@ == it.seq().take(it.index() as int),
            it.seq() == s@,
    {
        v.push(c);
    }
    v
}

/// A string made of the given characters.
pub fn string_of(v: &Vec<char>) -> (s: String)
    ensures
        s@ == v@,
{
    let mut s = String::new();
    let mut i: usize = 0;
    while i < v.len()
        invariant
            i <= v.len(),
            s@ == v@.take(i as int),
        decreases v.len() - i,
    {
        push_char(&mut s, v[i]);
        assert(v@.take(i as int).push(v@[i as int]) =~= v@.take(i + 1));
        i = i + 1;
    }
    assert(v@.take(v.len() as int) =~= v@);
    s
}

/// The string `a` followed by the string `b`.
pub fn concat_strs(a: &str, b: &str) -> (s: String)
    ensures
        s@ == a@ + b@,
{
    let mut s = String::from_str(a);
    s.append(b);
    s
}

/// Unicode `White_Space` characters, the set that `char::is_whitespace`
/// and `str::trim` use.
pub open spec fn is_space(c: char) -> bool {
    ||| ('\u{9}' <= c && c <= '\u{d}')
    ||| c == ' '
    ||| c == '\u{85}'
    ||| c == '\u{a0}'
    ||| c == '\u{1680}'
    ||| ('\u{2000}' <= c && c <= '\u{200a}')
    ||| c == '\u{2028}'
    ||| c == '\u{2029}'
    ||| c == '\u{202f}'
    ||| c == '\u{205f}'
    ||| c == '\u{3000}'
}

/// Whether `c` is whitespace (`char::is_whitespace`).
pub fn is_space_char(c: char) -> (b: bool)
    ensures
        b == is_space(c),
{
    ('\u{9}' <= c && c <= '\u{d}') || c == ' ' || c == '\u{85}' || c == '\u{a0}' || c
        == '\u{1680}' || ('\u{2000}' <= c && c <= '\u{200a}') || c == '\u{2028}' || c
        == '\u{2029}' || c == '\u{202f}' || c == '\u{205f}' || c == '\u{3000}'
}

/// `s` without its leading whitespace.
pub open spec fn trim_start(s: Seq<char>) -> Seq<char>
    decreases s.len(),
{
    if s.len() > 0 && is_space(s[0]) {
        trim_start(s.drop_first())
    } else {
        s
    }
}

/// `s` without its trailing whitespace.
pub open spec fn trim_end(s: Seq<char>) -> Seq<char>
    decreases s.len(),
{
    if s.len() > 0 && is_space(s.last()) {
        trim_end(s.drop_last())
    } else {
        s
    }
}

/// `s` without leading and trailing whitespace, as `str::trim` gives it.
pub open spec fn trim(s: Seq<char>) -> Seq<char> {
    trim_end(trim_start(s))
}

/// Whitespace only (or empty).
pub open spec fn is_blank(s: Seq<char>) -> bool {
    trim(s).len() == 0
}

/// Non-empty, and equal to its own trimmed form.
pub open spec fn is_nonempty_trimmed(s: Seq<char>) -> bool {
    s.len() > 0 && trim(s) == s
}

proof fn lemma_trim_end_prefix(s: Seq<char>, j: int)
    requires
        0 <= j <= s.len(),
        forall|k: int| j <= k < s.len() ==> is_space(#[trigger] s[k]),
    ensures
        trim_end(s) == trim_end(s.take(j)),
    decreases s.len() - j,
{
    if j < s.len() {
        assert(s.drop_last() =~= s.take(s.len() - 1));
        assert(s.take(s.len() - 1).take(j) =~= s.take(j));
        lemma_trim_end_prefix(s.take(s.len() - 1), j);
    } else {
        assert(s.take(j) =~= s);
    }
}

proof fn lemma_trim_start_suffix(s: Seq<char>, i: int)
    requires
        0 <= i <= s.len(),
        forall|k: int| 0 <= k < i ==> is_space(#[trigger] s[k]),
    ensures
        trim_start(s) == trim_start(s.skip(i)),
    decreases i,
{
    if i > 0 {
        assert(s.drop_first() =~= s.skip(1));
        assert(s.skip(1).skip(i - 1) =~= s.skip(i));
        lemma_trim_start_suffix(s.skip(1), i - 1);
    } else {
        assert(s.skip(0) =~= s);
    }
}

/// The bounds `[start, end)` of `v` once leading and trailing whitespace
/// are dropped.
fn trim_bounds(v: &Vec<char>) -> (r: (usize, usize))
    ensures
        r.0 <= r.1 <= v.len(),
        trim(v@) == v@.subrange(r.0 as int, r.1 as int),
{
    let mut i: usize = 0;
    while i < v.len() && is_space_char(v[i])
        invariant
            i <= v.len(),
            forall|k: int| 0 <= k < i ==> is_space(#[trigger] v@[k]),
        decreases v.len() - i,
    {
        i = i + 1;
    }
    proof {
        lemma_trim_start_suffix(v@, i as int);
    }
    let ghost rest = v@.skip(i as int);
    assert(trim_start(rest) == rest);
    let mut j: usize = v.len();
    while j > i && is_space_char(v[j - 1])
        invariant
            i <= j <= v.len(),
            rest == v@.skip(i as int),
            forall|k: int| j - i <= k < rest.len() ==> is_space(#[trigger] rest[k]),
        decreases j,
    {
        j = j - 1;
    }
    proof {
        lemma_trim_end_prefix(rest, j - i);
        assert(rest.take(j - i) =~= v@.subrange(i as int, j as int));
        let t = rest.take(j - i);
        if t.len() > 0 {
            assert(t.last() == v@[j - 1]);
        }
    }
    (i, j)
}

/// `str::trim` on a sequence of characters.
pub fn trim_chars(v: &Vec<char>) -> (r: Vec<char>)
    ensures
        r@ == trim(v@),
{
    let (i, j) = trim_bounds(v);
    let mut r: Vec<char> = Vec::new();
    let mut k = i;
    while k < j
        invariant
            i <= k <= j <= v.len(),
            r@ == v@.subrange(i as int, k as int),
        decreases j - k,
    {
        r.push(v[k]);
        assert(v@.subrange(i as int, k + 1) =~= v@.subrange(i as int, k as int).push(v@[k as int]));
        k = k + 1;
    }
    r
}

/// Whether `s` is blank (`s.trim().is_empty()`).
pub fn is_blank_str(s: &str) -> (b: bool)
    ensures
        b == is_blank(s@),
{
    let v = chars_of(s);
    let (i, j) = trim_bounds(&v);
    i == j
}

/// Whether `s` is non-empty and needs no trimming
/// (`!s.is_empty() && s.trim() == s`).
pub fn is_nonempty_trimmed_str(s: &str) -> (b: bool)
    ensures
        b == is_nonempty_trimmed(s@),
{
    let v = chars_of(s);
    let (i, j) = trim_bounds(&v);
    proof {
        if i == 0 && j == v.len() {
            assert(v@.subrange(0, v.len() as int) =~= v@);
        }
    }
    v.len() > 0 && i == 0 && j == v.len()
}

/// Whether two character sequences are equal.
pub fn chars_eq(a: &Vec<char>, b: &Vec<char>) -> (r: bool)
    ensures
        r == (a@ == b@),
{
    if a.len() != b.len() {
        return false;
    }
    let mut i: usize = 0;
    while i < a.len()
        invariant
            i <= a.len() == b.len(),
            forall|k: int| 0 <= k < i ==> a@[k] == b@[k],
        decreases a.len() - i,
    {
        if a[i] != b[i] {
            return false;
        }
        i = i + 1;
    }
    assert(a@ =~= b@);
    true
}

/// Whether the characters of `a` spell out `lit`.
pub fn chars_eq_str(a: &Vec<char>, lit: &str) -> (r: bool)
    ensures
        r == (a@ == lit@),
{
    let b = chars_of(lit);
    chars_eq(a, &b)
}

/// Whether two strings are equal.
pub fn str_eq(a: &str, b: &str) -> (r: bool)
    ensures
        r == (a@ == b@),
{
    let va = chars_of(a);
    let vb = chars_of(b);
    chars_eq(&va, &vb)
}

/// Whether `c` occurs in `v`.
pub fn contains_char(v: &Vec<char>, c: char) -> (r: bool)
    ensures
        r == v@.contains(c),
{
    let mut i: usize = 0;
    while i < v.len()
        invariant
            i <= v.len(),
            forall|k: int| 0 <= k < i ==> v@[k] != c,
        decreases v.len() - i,
    {
        if v[i] == c {
            assert(v@[i as int] == c);
            return true;
        }
        i = i + 1;
    }
    false
}

/// Whether `p` is a prefix of `s`.
pub fn has_prefix(s: &str, p: &str) -> (r: bool)
    ensures
        r == p@.is_prefix_of(s@),
{
    let vs = chars_of(s);
    let vp = chars_of(p);
    if vp.len() > vs.len() {
        return false;
    }
    let mut i: usize = 0;
    while i < vp.len()
        invariant
            i <= vp.len() <= vs.len(),
            vs@ == s@,
            vp@ == p@,
            forall|k: int| 0 <= k < i ==> vp@[k] == vs@[k],
        decreases vp.len() - i,
    {
        if vp[i] != vs[i] {
            assert(vs@.subrange(0, vp@.len() as int)[i as int] != vp@[i as int]);
            return false;
        }
        i = i + 1;
    }
    assert(vs@.subrange(0, vp@.len() as int) =~= vp@);
    true
}

/// The characters `v[from..to]` as a string.
pub fn string_of_range(v: &Vec<char>, from: usize, to: usize) -> (s: String)
    requires
        from <= to <= v.len(),
    ensures
        s@ == v@.subrange(from as int, to as int),
{
    let mut s = String::new();
    let mut k = from;
    while k < to
        invariant
            from <= k <= to <= v.len(),
            s@ == v@.subrange(from as int, k as int),
        decreases to - k,
    {
        push_char(&mut s, v[k]);
        assert(v@.subrange(from as int, k + 1) =~= v@.subrange(from as int, k as int).push(
            v@[k as int],
        ));
        k = k + 1;
    }
    s
}

/// The decimal digit for `d < 10`.
pub open spec fn digit(d: nat) -> char {
    if d == 0 {
        '0'
    } else if d == 1 {
        '1'
    } else if d == 2 {
        '2'
    } else if d == 3 {
        '3'
    } else if d == 4 {
        '4'
    } else if d == 5 {
        '5'
    } else if d == 6 {
        '6'
    } else if d == 7 {
        '7'
    } else if d == 8 {
        '8'
    } else {
        '9'
    }
}

/// The decimal rendering of `n`, without leading zeros, as `Display`
/// gives it for unsigned integers.
pub open spec fn decimal(n: nat) -> Seq<char>
    decreases n,
{
    if n < 10 {
        seq![digit(n)]
    } else {
        decimal(n / 10).push(digit(n % 10))
    }
}

fn digit_char(d: u128) -> (c: char)
    requires
        d < 10,
    ensures
        c == digit(d as nat),
{
    if d == 0 {
        '0'
    } else if d == 1 {
        '1'
    } else if d == 2 {
        '2'
    } else if d == 3 {
        '3'
    } else if d == 4 {
        '4'
    } else if d == 5 {
        '5'
    } else if d == 6 {
        '6'
    } else if d == 7 {
        '7'
    } else if d == 8 {
        '8'
    } else {
        '9'
    }
}

/// Appends the decimal rendering of `n` to `out`.
pub fn push_decimal(out: &mut String, n: u128)
    ensures
        final(out)@ == old(out)@ + decimal(n as nat),
    decreases n,
{
    if n >= 10 {
        push_decimal(out, n / 10);
    }
    push_char(out, digit_char(n % 10));
    assert(old(out)@ + decimal(n as nat) =~= if n >= 10 {
        (old(out)@ + decimal((n / 10) as nat)).push(digit((n % 10) as nat))
    } else {
        old(out)@.push(digit((n % 10) as nat))
    });
}

/// The decimal rendering of `n`.
pub fn decimal_string(n: u128) -> (s: String)
    ensures
        s@ == decimal(n as nat),
{
    let mut s = String::new();
    push_decimal(&mut s, n);
    assert(Seq::<char>::empty() + decimal(n as nat) =~= decimal(n as nat));
    s
}

/// Whether `c` separates path components: `/`, and on Windows also `\`.
pub open spec fn is_path_sep(c: char, windows: bool) -> bool {
    c == '/' || (windows && c == '\\')
}

/// `base` is a bare Windows drive such as `C:`, which takes a relative
/// component without a separator (`C:x`).
pub open spec fn is_bare_drive(base: Seq<char>) -> bool {
    base.len() == 2 && (('a' <= base[0] && base[0] <= 'z') || ('A' <= base[0] && base[0] <= 'Z'))
        && base[1] == ':'
}

/// The relative component `comp` appended to the path `base` in the style
/// of the platform (`windows` or not): one separator (`\` on Windows, `/`
/// elsewhere) between them, unless `base` is empty, already ends in a
/// separator, or is a bare Windows drive.
pub open spec fn join_path(base: Seq<char>, comp: Seq<char>, windows: bool) -> Seq<char> {
    if base.len() == 0 || is_path_sep(base.last(), windows) || (windows && is_bare_drive(base)) {
        base + comp
    } else {
        base + seq![if windows { '\\' } else { '/' }] + comp
    }
}

fn is_bare_drive_exec(v: &Vec<char>) -> (b: bool)
    ensures
        b == is_bare_drive(v@),
{
    v.len() == 2 && (('a' <= v[0] && v[0] <= 'z') || ('A' <= v[0] && v[0] <= 'Z')) && v[1] == ':'
}

/// Composes the path `base` + `comp` as [`join_path`] says, for a relative
/// component `comp`.
pub fn join_path_str(base: &str, comp: &str, windows: bool) -> (s: String)
    ensures
        s@ == join_path(base@, comp@, windows),
{
    let vb = chars_of(base);
    let mut s = String::from_str(base);
    if vb.len() > 0 {
        let last = vb[vb.len() - 1];
        let ends_in_sep = last == '/' || (windows && last == '\\');
        if !ends_in_sep && !(windows && is_bare_drive_exec(&vb)) {
            push_char(&mut s, if windows { '\\' } else { '/' });
        }
    }
    s.append(comp);
    s
}

} // verus!
