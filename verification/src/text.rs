//! Character-sequence helpers shared by the whole crate: file names and
//! extensions of slash-separated paths, whitespace-delimited tokens, string
//! equality and path-prefix tests.

use vstd::prelude::*;

verus! {

/// The Unicode whitespace characters, as used to delimit name tokens.
pub open spec fn spec_is_space(c: char) -> bool {
    c == ' ' || c == '\t' || c == '\n' || c == '\u{B}' || c == '\u{C}' || c == '\r'
        || c == '\u{85}' || c == '\u{A0}' || c == '\u{1680}' || c == '\u{2000}'
        || c == '\u{2001}' || c == '\u{2002}' || c == '\u{2003}' || c == '\u{2004}'
        || c == '\u{2005}' || c == '\u{2006}' || c == '\u{2007}' || c == '\u{2008}'
        || c == '\u{2009}' || c == '\u{200A}' || c == '\u{2028}' || c == '\u{2029}'
        || c == '\u{202F}' || c == '\u{205F}' || c == '\u{3000}'
}

pub fn is_space(c: char) -> (r: bool)
    ensures
        r == spec_is_space(c),
{
    c == ' ' || c == '\t' || c == '\n' || c == '\u{B}' || c == '\u{C}' || c == '\r'
        || c == '\u{85}' || c == '\u{A0}' || c == '\u{1680}' || c == '\u{2000}'
        || c == '\u{2001}' || c == '\u{2002}' || c == '\u{2003}' || c == '\u{2004}'
        || c == '\u{2005}' || c == '\u{2006}' || c == '\u{2007}' || c == '\u{2008}'
        || c == '\u{2009}' || c == '\u{200A}' || c == '\u{2028}' || c == '\u{2029}'
        || c == '\u{202F}' || c == '\u{205F}' || c == '\u{3000}'
}

/// The part of `s` after the last occurrence of `c`; all of `s` when `c` does
/// not occur.
pub open spec fn spec_after_last(s: Seq<char>, c: char) -> Seq<char>
    decreases s.len(),
{
    if s.len() == 0 {
        s
    } else if s.last() == c {
        Seq::empty()
    } else {
        spec_after_last(s.drop_last(), c).push(s.last())
    }
}

/// The final path segment: what follows the last `/`.
pub open spec fn spec_file_name(path: Seq<char>) -> Seq<char> {
    spec_after_last(path, '/')
}

/// The extension of a file name: what follows the last `.`, provided some `.`
/// stands after the first character; empty otherwise (so a leading dot alone,
/// as in a hidden file, yields no extension).
pub open spec fn spec_extension(name: Seq<char>) -> Seq<char> {
    if exists|i: int| 1 <= i < name.len() && name[i] == '.' {
        spec_after_last(name, '.')
    } else {
        Seq::empty()
    }
}

proof fn lemma_after_last_found(s: Seq<char>, c: char, i: int)
    requires
        0 <= i < s.len(),
        s[i] == c,
        forall|k: int| i < k < s.len() ==> s[k] != c,
    ensures
        spec_after_last(s, c) == s.subrange(i + 1, s.len() as int),
    decreases s.len(),
{
    if i == s.len() - 1 {
        assert(s.subrange(i + 1, s.len() as int) =~= Seq::<char>::empty());
    } else {
        lemma_after_last_found(s.drop_last(), c, i);
        assert(s.drop_last().subrange(i + 1, s.len() - 1) =~= s.subrange(i + 1, s.len() - 1));
        assert(s.subrange(i + 1, s.len() - 1).push(s.last()) =~= s.subrange(i + 1, s.len() as int));
    }
}

proof fn lemma_after_last_absent(s: Seq<char>, c: char)
    requires
        forall|k: int| 0 <= k < s.len() ==> s[k] != c,
    ensures
        spec_after_last(s, c) == s,
    decreases s.len(),
{
    if s.len() > 0 {
        lemma_after_last_absent(s.drop_last(), c);
        assert(s.drop_last().push(s.last()) =~= s);
    }
}

/// The final path segment of `path`, executably.
pub fn file_name_of(path: &str) -> (r: &str)
    ensures
        r@ == spec_file_name(path@),
{
    let n = path.unicode_len();
    let mut j = n;
    while j > 0
        invariant
            n == path@.len(),
            j <= n,
            forall|k: int| j <= k < n ==> path@[k] != '/',
        decreases j,
    {
        if path.get_char(j - 1) == '/' {
            proof {
                lemma_after_last_found(path@, '/', j - 1);
            }
            return path.substring_char(j, n);
        }
        j = j - 1;
    }
    proof {
        lemma_after_last_absent(path@, '/');
    }
    path
}

/// The extension of the file name `name`, executably.
pub fn extension_of(name: &str) -> (r: &str)
    ensures
        r@ == spec_extension(name@),
{
    let n = name.unicode_len();
    let mut j = n;
    while j > 0
        invariant
            n == name@.len(),
            j <= n,
            forall|k: int| j <= k < n ==> name@[k] != '.',
        decreases j,
    {
        if name.get_char(j - 1) == '.' {
            if j - 1 >= 1 {
                proof {
                    assert(1 <= j - 1 < name@.len() && name@[j - 1] == '.');
                    lemma_after_last_found(name@, '.', j - 1);
                }
                return name.substring_char(j, n);
            } else {
                // The only dot is the leading character: no extension.
                proof {
                    assert(forall|i: int| 1 <= i < name@.len() ==> name@[i] != '.');
                }
                return name.substring_char(0, 0);
            }
        }
        j = j - 1;
    }
    proof {
        assert(forall|i: int| 1 <= i < name@.len() ==> name@[i] != '.');
    }
    name.substring_char(0, 0)
}

/// The characters of `s` before its first whitespace character.
pub open spec fn spec_token_prefix(s: Seq<char>) -> Seq<char>
    decreases s.len(),
{
    if s.len() == 0 || spec_is_space(s.first()) {
        Seq::empty()
    } else {
        seq![s.first()] + spec_token_prefix(s.drop_first())
    }
}

/// The first whitespace-delimited token of `s`: leading whitespace is
/// skipped, and the token runs to the next whitespace character.  A string
/// of nothing but whitespace yields the empty token.
pub open spec fn spec_first_token(s: Seq<char>) -> Seq<char>
    decreases s.len(),
{
    if s.len() == 0 {
        Seq::empty()
    } else if spec_is_space(s.first()) {
        spec_first_token(s.drop_first())
    } else {
        spec_token_prefix(s)
    }
}

proof fn lemma_token_prefix(s: Seq<char>, j: int)
    requires
        0 <= j <= s.len(),
        forall|k: int| 0 <= k < j ==> !spec_is_space(s[k]),
        j == s.len() || spec_is_space(s[j]),
    ensures
        spec_token_prefix(s) == s.subrange(0, j),
    decreases j,
{
    if j == 0 {
        assert(s.subrange(0, 0) =~= Seq::<char>::empty());
    } else {
        lemma_token_prefix(s.drop_first(), j - 1);
        assert(seq![s.first()] + s.drop_first().subrange(0, j - 1) =~= s.subrange(0, j));
    }
}

/// The first whitespace-delimited token of `s`, executably.
pub fn first_token(s: &str) -> (r: &str)
    ensures
        r@ == spec_first_token(s@),
{
    let n = s.unicode_len();
    let mut i: usize = 0;
    proof {
        assert(s@.skip(0) =~= s@);
    }
    while i < n && is_space(s.get_char(i))
        invariant
            n == s@.len(),
            i <= n,
            spec_first_token(s@) == spec_first_token(s@.skip(i as int)),
        decreases n - i,
    {
        proof {
            assert(s@.skip(i as int).drop_first() =~= s@.skip(i + 1));
        }
        i = i + 1;
    }
    if i == n {
        proof {
            assert(s@.skip(n as int) =~= Seq::<char>::empty());
        }
        return s.substring_char(n, n);
    }
    let mut j: usize = i;
    while j < n && !is_space(s.get_char(j))
        invariant
            n == s@.len(),
            i <= j <= n,
            forall|k: int| i <= k < j ==> !spec_is_space(s@[k]),
        decreases n - j,
    {
        j = j + 1;
    }
    proof {
        let t = s@.skip(i as int);
        lemma_token_prefix(t, j - i);
        assert(t.subrange(0, j - i) =~= s@.subrange(i as int, j as int));
        assert(spec_first_token(s@) == spec_token_prefix(t));
    }
    s.substring_char(i, j)
}

/// The pieces of `s` between occurrences of `sep`, in order: one piece more
/// than there are separators, so the empty string yields one empty piece and
/// adjacent separators yield empty pieces between them.
pub open spec fn spec_split(s: Seq<char>, sep: char) -> Seq<Seq<char>>
    decreases s.len(),
{
    if s.len() == 0 {
        seq![Seq::<char>::empty()]
    } else if s.first() == sep {
        seq![Seq::<char>::empty()] + spec_split(s.drop_first(), sep)
    } else {
        let rest = spec_split(s.drop_first(), sep);
        seq![seq![s.first()] + rest.first()] + rest.drop_first()
    }
}

proof fn lemma_split_len(s: Seq<char>, sep: char)
    ensures
        spec_split(s, sep).len() >= 1,
    decreases s.len(),
{
    if s.len() > 0 {
        lemma_split_len(s.drop_first(), sep);
    }
}

proof fn lemma_split_no_sep(s: Seq<char>, sep: char)
    requires
        forall|k: int| 0 <= k < s.len() ==> s[k] != sep,
    ensures
        spec_split(s, sep) == seq![s],
    decreases s.len(),
{
    if s.len() > 0 {
        lemma_split_no_sep(s.drop_first(), sep);
        let rest = spec_split(s.drop_first(), sep);
        assert(rest.first() == s.drop_first());
        assert(rest.drop_first() =~= Seq::<Seq<char>>::empty());
        assert(seq![s.first()] + s.drop_first() =~= s);
        assert(spec_split(s, sep) == seq![seq![s.first()] + rest.first()] + rest.drop_first());
        assert(seq![seq![s.first()] + rest.first()] + rest.drop_first() =~= seq![s]);
    } else {
        assert(s =~= Seq::<char>::empty());
    }
}

proof fn lemma_split_at_sep(s: Seq<char>, sep: char, m: int)
    requires
        0 <= m < s.len(),
        s[m] == sep,
        forall|k: int| 0 <= k < m ==> s[k] != sep,
    ensures
        spec_split(s, sep) == seq![s.subrange(0, m)] + spec_split(s.skip(m + 1), sep),
    decreases m,
{
    if m == 0 {
        assert(s.subrange(0, 0) =~= Seq::<char>::empty());
        assert(s.drop_first() =~= s.skip(1));
        assert(seq![Seq::<char>::empty()] + spec_split(s.skip(1), sep) =~= seq![s.subrange(0, 0)]
            + spec_split(s.skip(1), sep));
    } else {
        lemma_split_at_sep(s.drop_first(), sep, m - 1);
        lemma_split_len(s.drop_first().skip(m), sep);
        let rest = spec_split(s.drop_first(), sep);
        assert(s.drop_first().subrange(0, m - 1) =~= s.subrange(1, m));
        assert(s.drop_first().skip(m) =~= s.skip(m + 1));
        assert(rest == seq![s.subrange(1, m)] + spec_split(s.skip(m + 1), sep));
        assert(rest.first() == s.subrange(1, m));
        assert(seq![s.first()] + s.subrange(1, m) =~= s.subrange(0, m));
        assert(rest.drop_first() =~= spec_split(s.skip(m + 1), sep));
        assert(seq![seq![s.first()] + rest.first()] + rest.drop_first() =~= seq![s.subrange(0, m)]
            + spec_split(s.skip(m + 1), sep));
    }
}

/// Split `s` on every occurrence of `sep`, executably.
pub fn split_on(s: &str, sep: char) -> (parts: Vec<String>)
    ensures
        parts.deep_view() == spec_split(s@, sep),
{
    let n = s.unicode_len();
    let mut parts: Vec<String> = Vec::new();
    let mut start: usize = 0;
    let mut j: usize = 0;
    proof {
        assert(s@.skip(0) =~= s@);
        assert(parts.deep_view() =~= Seq::<Seq<char>>::empty());
        assert(Seq::<Seq<char>>::empty() + spec_split(s@, sep) =~= spec_split(s@, sep));
    }
    while j < n
        invariant
            n == s@.len(),
            start <= j <= n,
            parts.deep_view() + spec_split(s@.skip(start as int), sep) == spec_split(s@, sep),
            forall|k: int| start <= k < j ==> s@[k] != sep,
        decreases n - j,
    {
        if s.get_char(j) == sep {
            let piece = s.substring_char(start, j);
            let ghost pre = parts.deep_view();
            parts.push(piece.to_owned());
            proof {
                let t = s@.skip(start as int);
                lemma_split_at_sep(t, sep, j - start);
                assert(t.subrange(0, j - start) =~= s@.subrange(start as int, j as int));
                assert(t.skip(j - start + 1) =~= s@.skip(j + 1));
                assert(parts.deep_view() =~= pre.push(piece@));
                assert(pre + (seq![piece@] + spec_split(s@.skip(j + 1), sep)) =~= pre.push(piece@)
                    + spec_split(s@.skip(j + 1), sep));
            }
            start = j + 1;
        }
        j = j + 1;
    }
    let piece = s.substring_char(start, n);
    let ghost pre = parts.deep_view();
    parts.push(piece.to_owned());
    proof {
        let t = s@.skip(start as int);
        lemma_split_no_sep(t, sep);
        assert(t =~= s@.subrange(start as int, n as int));
        assert(parts.deep_view() =~= pre.push(piece@));
        assert(pre + seq![piece@] =~= pre.push(piece@));
    }
    parts
}

/// Whether two string slices hold the same characters.
pub fn str_eq(a: &str, b: &str) -> (r: bool)
    ensures
        r == (a@ == b@),
{
    let n = a.unicode_len();
    if n != b.unicode_len() {
        return false;
    }
    let mut i: usize = 0;
    while i < n
        invariant
            n == a@.len(),
            n == b@.len(),
            i <= n,
            forall|k: int| 0 <= k < i ==> a@[k] == b@[k],
        decreases n - i,
    {
        if a.get_char(i) != b.get_char(i) {
            return false;
        }
        i = i + 1;
    }
    proof {
        assert(a@ =~= b@);
    }
    true
}

/// Whether any element of `v` holds the same characters as `s`.
pub fn vec_contains_str(v: &Vec<String>, s: &str) -> (r: bool)
    ensures
        r == v.deep_view().contains(s@),
{
    let n = v.len();
    let mut i: usize = 0;
    while i < n
        invariant
            n == v@.len(),
            i <= n,
            forall|k: int| 0 <= k < i ==> v.deep_view()[k] != s@,
        decreases n - i,
    {
        if str_eq(v[i].as_str(), s) {
            proof {
                assert(v.deep_view()[i as int] == s@);
            }
            return true;
        }
        i = i + 1;
    }
    false
}

/// Whether the ignore entry `entry` shields the path `path` as a subtree
/// prefix: `path` is `entry` itself, or continues below it past a `/`
/// boundary.  An empty entry shields nothing.
pub open spec fn spec_prefix_match(entry: Seq<char>, path: Seq<char>) -> bool {
    &&& entry.len() > 0
    &&& path.len() >= entry.len()
    &&& path.subrange(0, entry.len() as int) == entry
    &&& (path.len() == entry.len() || path[entry.len() as int] == '/' || entry.last() == '/')
}

/// Whether `entry` is a subtree prefix of `path`, executably.
pub fn prefix_matches(entry: &str, path: &str) -> (r: bool)
    ensures
        r == spec_prefix_match(entry@, path@),
{
    let en = entry.unicode_len();
    let pn = path.unicode_len();
    if en == 0 || pn < en {
        return false;
    }
    let mut i: usize = 0;
    while i < en
        invariant
            en == entry@.len(),
            pn == path@.len(),
            en <= pn,
            i <= en,
            forall|k: int| 0 <= k < i ==> path@[k] == entry@[k],
        decreases en - i,
    {
        if path.get_char(i) != entry.get_char(i) {
            proof {
                assert(path@.subrange(0, en as int)[i as int] != entry@[i as int]);
            }
            return false;
        }
        i = i + 1;
    }
    proof {
        assert(path@.subrange(0, en as int) =~= entry@);
    }
    pn == en || path.get_char(en) == '/' || entry.get_char(en - 1) == '/'
}

} // verus!
