use vstd::prelude::*;

verus! {

// ---------------------------------------------------------------------------
// Conversions between `str` and character vectors
// ---------------------------------------------------------------------------

/// The characters of `s`, in order.
pub fn chars_of(s: &str) -> (r: Vec<char>)
    ensures
        r@ == s@,
{
    let mut r: Vec<char> = Vec::new();
    for c in it: s.chars()
        invariant
            it.seq() == s@,
            r@ == s@.take(it.index() as int),
    {
        r.push(c);
        assert(r@ =~= s@.take(it.index() + 1));
    }
    assert(r@ =~= s@);
    r
}

/// The string made of the characters `v`, in order (`String: FromIterator<char>`).
#[verifier::external_body]
pub(crate) fn string_of(v: &Vec<char>) -> (r: String)
    ensures
        r@ == v@,
{
    v.iter().collect()
}

/// Appends the characters of `s` to `out`.
pub fn push_str(out: &mut Vec<char>, s: &str)
    ensures
        final(out)@ == old(out)@ + s@,
{
    push_chars(out, &chars_of(s));
}

/// Appends the characters `t` to `out`.
pub fn push_chars(out: &mut Vec<char>, t: &Vec<char>)
    ensures
        final(out)@ == old(out)@ + t@,
{
    let mut i: usize = 0;
    while i < t.len()
        invariant
            i <= t@.len(),
            out@ == old(out)@ + t@.subrange(0, i as int),
        decreases t@.len() - i,
    {
        out.push(t[i]);
        i = i + 1;
        assert(out@ =~= old(out)@ + t@.subrange(0, i as int));
    }
    assert(t@.subrange(0, t@.len() as int) =~= t@);
}

// ---------------------------------------------------------------------------
// Occurrences and search
// ---------------------------------------------------------------------------

/// `p` occurs in `s` at index `i`.
pub open spec fn occurs_at(s: Seq<char>, p: Seq<char>, i: int) -> bool {
    0 <= i && i + p.len() <= s.len() && s.subrange(i, i + p.len()) == p
}

pub open spec fn starts_with(s: Seq<char>, p: Seq<char>) -> bool {
    occurs_at(s, p, 0)
}

pub open spec fn ends_with(s: Seq<char>, p: Seq<char>) -> bool {
    p.len() <= s.len() && occurs_at(s, p, s.len() - p.len())
}

pub open spec fn contains(s: Seq<char>, p: Seq<char>) -> bool {
    exists|i: int| occurs_at(s, p, i)
}

/// The first index, at or after `i`, at which `p` occurs in `s`.
pub open spec fn find_from(s: Seq<char>, p: Seq<char>, i: nat) -> Option<nat>
    decreases s.len() - i,
{
    if i + p.len() > s.len() {
        None
    } else if occurs_at(s, p, i as int) {
        Some(i)
    } else if i < s.len() {
        find_from(s, p, i + 1)
    } else {
        None
    }
}

/// The first index at which `p` occurs in `s` (`str::find`).
pub open spec fn find(s: Seq<char>, p: Seq<char>) -> Option<nat> {
    find_from(s, p, 0)
}

pub proof fn lemma_find_from(s: Seq<char>, p: Seq<char>, i: nat)
    ensures
        match find_from(s, p, i) {
            Some(k) => i <= k && occurs_at(s, p, k as int) && forall|j: int|
                i <= j < k ==> !#[trigger] occurs_at(s, p, j),
            None => forall|j: int| i <= j ==> !#[trigger] occurs_at(s, p, j),
        },
    decreases s.len() - i,
{
    if i + p.len() > s.len() {
    } else if occurs_at(s, p, i as int) {
    } else if i < s.len() {
        lemma_find_from(s, p, i + 1);
    } else {
    }
}

/// The first occurrence of `p` in `s`, with everything before it and everything after it.
pub proof fn lemma_find(s: Seq<char>, p: Seq<char>)
    ensures
        match find(s, p) {
            Some(k) => occurs_at(s, p, k as int) && forall|j: int|
                0 <= j < k ==> !#[trigger] occurs_at(s, p, j),
            None => !contains(s, p),
        },
{
    lemma_find_from(s, p, 0);
}

/// Whether `p` occurs in `s` at index `i`.
pub fn matches_at(s: &Vec<char>, p: &Vec<char>, i: usize) -> (b: bool)
    ensures
        b == occurs_at(s@, p@, i as int),
{
    if i > s.len() || p.len() > s.len() - i {
        return false;
    }
    let mut j: usize = 0;
    while j < p.len()
        invariant
            i + p.len() <= s.len(),
            j <= p.len(),
            forall|k: int| 0 <= k < j ==> s@[i + k] == p@[k],
        decreases p@.len() - j,
    {
        if s[i + j] != p[j] {
            assert(s@.subrange(i as int, i + p@.len())[j as int] != p@[j as int]);
            return false;
        }
        j = j + 1;
    }
    assert(s@.subrange(i as int, i + p@.len()) =~= p@);
    true
}

/// Whether `a` and `b` hold the same characters.
pub fn chars_equal(a: &Vec<char>, b: &Vec<char>) -> (r: bool)
    ensures
        r == (a@ == b@),
{
    if a.len() != b.len() {
        return false;
    }
    let mut i: usize = 0;
    while i < a.len()
        invariant
            a@.len() == b@.len(),
            i <= a@.len(),
            forall|k: int| 0 <= k < i ==> a@[k] == b@[k],
        decreases a@.len() - i,
    {
        if a[i] != b[i] {
            return false;
        }
        i = i + 1;
    }
    assert(a@ =~= b@);
    true
}

/// Whether the strings `a` and `b` are equal.
pub fn str_equal(a: &str, b: &str) -> (r: bool)
    ensures
        r == (a@ == b@),
{
    chars_equal(&chars_of(a), &chars_of(b))
}

/// The first index, at or after `start`, at which `p` occurs in `s`.
pub fn find_chars_from(s: &Vec<char>, p: &Vec<char>, start: usize) -> (r: Option<usize>)
    ensures
        match r {
            Some(k) => find_from(s@, p@, start as nat) == Some(k as nat),
            None => find_from(s@, p@, start as nat) is None,
        },
{
    let mut i = start;
    loop
        invariant
            find_from(s@, p@, start as nat) == find_from(s@, p@, i as nat),
        decreases s@.len() + 1 - i,
    {
        if i > s.len() || p.len() > s.len() - i {
            return None;
        }
        if matches_at(s, p, i) {
            return Some(i);
        }
        if i == s.len() {
            return None;
        }
        i = i + 1;
    }
}

/// The first index at which `p` occurs in `s`.
pub fn find_chars(s: &Vec<char>, p: &Vec<char>) -> (r: Option<usize>)
    ensures
        match r {
            Some(k) => find(s@, p@) == Some(k as nat),
            None => find(s@, p@) is None,
        },
{
    find_chars_from(s, p, 0)
}


pub fn starts_with_chars(s: &Vec<char>, p: &Vec<char>) -> (b: bool)
    ensures
        b == starts_with(s@, p@),
{
    matches_at(s, p, 0)
}

pub fn ends_with_chars(s: &Vec<char>, p: &Vec<char>) -> (b: bool)
    ensures
        b == ends_with(s@, p@),
{
    if p.len() > s.len() {
        false
    } else {
        matches_at(s, p, s.len() - p.len())
    }
}

pub fn contains_chars(s: &Vec<char>, p: &Vec<char>) -> (b: bool)
    ensures
        b == contains(s@, p@),
{
    proof {
        lemma_find(s@, p@);
    }
    find_chars(s, p).is_some()
}

/// The characters of `s` from index `from` up to (not including) `to`.
pub fn sub_chars(s: &Vec<char>, from: usize, to: usize) -> (r: Vec<char>)
    requires
        from <= to <= s@.len(),
    ensures
        r@ == s@.subrange(from as int, to as int),
{
    let mut r: Vec<char> = Vec::new();
    let mut i = from;
    while i < to
        invariant
            from <= i <= to <= s@.len(),
            r@ == s@.subrange(from as int, i as int),
        decreases to - i,
    {
        r.push(s[i]);
        i = i + 1;
        assert(r@ =~= s@.subrange(from as int, i as int));
    }
    r
}

/// `s` followed by `t`.
pub fn concat_chars(s: &Vec<char>, t: &Vec<char>) -> (r: Vec<char>)
    ensures
        r@ == s@ + t@,
{
    let mut r = s.clone();
    let mut i: usize = 0;
    while i < t.len()
        invariant
            i <= t@.len(),
            r@ == s@ + t@.subrange(0, i as int),
        decreases t@.len() - i,
    {
        r.push(t[i]);
        i = i + 1;
        assert(r@ =~= s@ + t@.subrange(0, i as int));
    }
    assert(t@.subrange(0, t@.len() as int) =~= t@);
    r
}

/// Splits `s` around the first occurrence of `p` (`str::split_once`).
pub open spec fn split_once(s: Seq<char>, p: Seq<char>) -> Option<(Seq<char>, Seq<char>)> {
    match find(s, p) {
        Some(k) => Some((s.take(k as int), s.skip((k + p.len()) as int))),
        None => None,
    }
}

pub fn split_once_chars(s: &Vec<char>, p: &Vec<char>) -> (r: Option<(Vec<char>, Vec<char>)>)
    ensures
        match r {
            Some((a, b)) => split_once(s@, p@) == Some((a@, b@)),
            None => split_once(s@, p@) is None,
        },
{
    proof {
        lemma_find(s@, p@);
    }
    match find_chars(s, p) {
        Some(k) => {
            assert(occurs_at(s@, p@, k as int));
            let n = s.len();
            assert(k + p@.len() <= n);
            let a = sub_chars(s, 0, k);
            let b = sub_chars(s, k + p.len(), n);
            assert(a@ =~= s@.take(k as int));
            assert(b@ =~= s@.skip((k + p@.len()) as int));
            Some((a, b))
        },
        None => None,
    }
}

/// `s` with every non-overlapping occurrence of `from`, scanning left to right, replaced by `to`
/// (`str::replace`).
pub open spec fn replace(s: Seq<char>, from: Seq<char>, to: Seq<char>) -> Seq<char>
    decreases s.len(),
{
    if s.len() == 0 || from.len() == 0 {
        s
    } else if starts_with(s, from) {
        to + replace(s.skip(from.len() as int), from, to)
    } else {
        seq![s[0]] + replace(s.drop_first(), from, to)
    }
}

pub fn replace_chars(s: &Vec<char>, from: &Vec<char>, to: &Vec<char>) -> (r: Vec<char>)
    requires
        from@.len() > 0,
    ensures
        r@ == replace(s@, from@, to@),
{
    let mut r: Vec<char> = Vec::new();
    let mut i: usize = 0;
    assert(s@.skip(0) =~= s@);
    assert(r@ + replace(s@, from@, to@) =~= replace(s@, from@, to@));
    while i < s.len()
        invariant
            from@.len() > 0,
            i <= s@.len(),
            r@ + replace(s@.skip(i as int), from@, to@) == replace(s@, from@, to@),
        decreases s@.len() - i,
    {
        let ghost rest = s@.skip(i as int);
        if matches_at(s, from, i) {
            assert(starts_with(rest, from@)) by {
                assert(rest.subrange(0, from@.len() as int) =~= s@.subrange(
                    i as int,
                    i + from@.len(),
                ));
            }
            assert(rest.skip(from@.len() as int) =~= s@.skip(i + from@.len()));
            let mut k: usize = 0;
            let ghost r0 = r@;
            while k < to.len()
                invariant
                    k <= to@.len(),
                    r@ == r0 + to@.subrange(0, k as int),
                decreases to@.len() - k,
            {
                r.push(to[k]);
                k = k + 1;
                assert(r@ =~= r0 + to@.subrange(0, k as int));
            }
            assert(to@.subrange(0, to@.len() as int) =~= to@);
            assert(r@ + replace(s@.skip(i + from@.len()), from@, to@) =~= r0 + replace(
                rest,
                from@,
                to@,
            ));
            i = i + from.len();
        } else {
            assert(!starts_with(rest, from@)) by {
                if starts_with(rest, from@) {
                    assert(rest.subrange(0, from@.len() as int) =~= s@.subrange(
                        i as int,
                        i + from@.len(),
                    ));
                }
            }
            assert(rest.drop_first() =~= s@.skip(i + 1));
            let ghost r0 = r@;
            r.push(s[i]);
            assert(r@ + replace(s@.skip(i + 1), from@, to@) =~= r0 + replace(rest, from@, to@));
            i = i + 1;
        }
    }
    assert(s@.skip(i as int).len() == 0);
    assert(r@ =~= r@ + replace(s@.skip(i as int), from@, to@));
    r
}


/// Removing a character that does not occur changes nothing.
pub proof fn lemma_remove_char_absent(s: Seq<char>, c: char)
    requires
        !s.contains(c),
    ensures
        remove_char(s, c) == s,
    decreases s.len(),
{
    if s.len() > 0 {
        assert(!s.drop_last().contains(c)) by {
            if s.drop_last().contains(c) {
                let k = choose|k: int| 0 <= k < s.drop_last().len() && s.drop_last()[k] == c;
                assert(s[k] == c);
            }
        }
        lemma_remove_char_absent(s.drop_last(), c);
        assert(s.last() != c) by {
            assert(s[s.len() - 1] == s.last());
        }
        assert(s.drop_last().push(s.last()) =~= s);
    }
}

/// Replacing a pattern that does not occur changes nothing.
pub proof fn lemma_replace_absent(s: Seq<char>, from: Seq<char>, to: Seq<char>)
    requires
        !contains(s, from),
    ensures
        replace(s, from, to) == s,
    decreases s.len(),
{
    if s.len() == 0 || from.len() == 0 {
    } else {
        assert(!starts_with(s, from)) by {
            if starts_with(s, from) {
                assert(occurs_at(s, from, 0));
            }
        }
        let t = s.drop_first();
        assert(!contains(t, from)) by {
            if contains(t, from) {
                let k = choose|k: int| occurs_at(t, from, k);
                assert(s.subrange(k + 1, k + 1 + from.len()) =~= t.subrange(k, k + from.len()));
                assert(occurs_at(s, from, k + 1));
            }
        }
        lemma_replace_absent(t, from, to);
        assert(seq![s[0]] + t =~= s);
    }
}

// ---------------------------------------------------------------------------
// Splitting
// ---------------------------------------------------------------------------

/// The pieces of `s` between the occurrences of `sep` (`str::split`, for a non-empty `sep`).
pub open spec fn split(s: Seq<char>, sep: Seq<char>) -> Seq<Seq<char>>
    decreases s.len(),
{
    if sep.len() == 0 {
        seq![s]
    } else {
        match find(s, sep) {
            Some(k) => {
                proof {
                    lemma_find(s, sep);
                }
                seq![s.take(k as int)] + split(s.skip((k + sep.len()) as int), sep)
            },
            None => seq![s],
        }
    }
}

/// Splitting at a one-character separator that does not occur gives the text back whole.
pub proof fn lemma_split_no_sep(a: Seq<char>, c: char)
    requires
        !a.contains(c),
    ensures
        split(a, seq![c]) == seq![a],
{
    lemma_find(a, seq![c]);
    assert(!contains(a, seq![c])) by {
        if contains(a, seq![c]) {
            let k = choose|k: int| occurs_at(a, seq![c], k);
            assert(a.subrange(k, k + 1)[0] == c);
            assert(a[k] == c);
        }
    }
}

/// Splitting `a`, the separator `c` and `b`, where `a` holds no `c`, gives `a` and then the
/// pieces of `b`.
pub proof fn lemma_split_single(a: Seq<char>, c: char, b: Seq<char>)
    requires
        !a.contains(c),
    ensures
        split(a + seq![c] + b, seq![c]) == seq![a] + split(b, seq![c]),
{
    let s = a + seq![c] + b;
    let p = seq![c];
    lemma_find(s, p);
    assert(s.subrange(a.len() as int, (a.len() + 1) as int) =~= p);
    assert(occurs_at(s, p, a.len() as int));
    match find(s, p) {
        Some(k) => {
            if k < a.len() {
                assert(s.subrange(k as int, (k + 1) as int)[0] == s[k as int]);
                assert(s[k as int] == a[k as int]);
                assert(false);
            }
            assert(k == a.len()) by {
                if k > a.len() {
                    assert(!occurs_at(s, p, a.len() as int));
                }
            }
            assert(s.take(k as int) =~= a);
            assert(s.skip((k + 1) as int) =~= b);
        },
        None => {
            assert(false);
        },
    }
}

/// The views of a vector of character vectors.
pub open spec fn views(v: Seq<Vec<char>>) -> Seq<Seq<char>> {
    v.map_values(|x: Vec<char>| x@)
}

pub fn split_chars(s: &Vec<char>, sep: &Vec<char>) -> (r: Vec<Vec<char>>)
    requires
        sep@.len() > 0,
    ensures
        views(r@) == split(s@, sep@),
{
    let mut r: Vec<Vec<char>> = Vec::new();
    let mut rest = s.clone();
    assert(views(r@) + split(rest@, sep@) =~= split(s@, sep@));
    loop
        invariant
            sep@.len() > 0,
            views(r@) + split(rest@, sep@) == split(s@, sep@),
        decreases rest@.len(),
    {
        proof {
            lemma_find(rest@, sep@);
        }
        match find_chars(&rest, sep) {
            Some(k) => {
                let n = rest.len();
                assert(occurs_at(rest@, sep@, k as int));
                assert(k + sep@.len() <= n);
                let a = sub_chars(&rest, 0, k);
                let b = sub_chars(&rest, k + sep.len(), n);
                let ghost old_r = r@;
                assert(a@ =~= rest@.take(k as int));
                assert(b@ =~= rest@.skip((k + sep@.len()) as int));
                assert(split(rest@, sep@) == seq![a@] + split(b@, sep@));
                r.push(a);
                assert(views(r@) =~= views(old_r).push(a@));
                assert(views(r@) + split(b@, sep@) =~= views(old_r) + split(rest@, sep@));
                rest = b;
            },
            None => {
                let ghost old_r = r@;
                assert(split(rest@, sep@) == seq![rest@]);
                r.push(rest);
                assert(views(r@) =~= views(old_r).push(rest@));
                assert(views(r@) =~= views(old_r) + split(rest@, sep@));
                return r;
            },
        }
    }
}

// ---------------------------------------------------------------------------
// Character classes, trimming, case
// ---------------------------------------------------------------------------

/// The characters with the Unicode `White_Space` property (`char::is_whitespace`).
pub open spec fn is_whitespace(c: char) -> bool {
    ||| '\u{9}' <= c && c <= '\u{d}'
    ||| c == ' '
    ||| c == '\u{85}'
    ||| c == '\u{a0}'
    ||| c == '\u{1680}'
    ||| '\u{2000}' <= c && c <= '\u{200a}'
    ||| c == '\u{2028}'
    ||| c == '\u{2029}'
    ||| c == '\u{202f}'
    ||| c == '\u{205f}'
    ||| c == '\u{3000}'
}

pub fn char_is_whitespace(c: char) -> (b: bool)
    ensures
        b == is_whitespace(c),
{
    ('\u{9}' <= c && c <= '\u{d}') || c == ' ' || c == '\u{85}' || c == '\u{a0}' || c
        == '\u{1680}' || ('\u{2000}' <= c && c <= '\u{200a}') || c == '\u{2028}' || c
        == '\u{2029}' || c == '\u{202f}' || c == '\u{205f}' || c == '\u{3000}'
}

/// `s` without its leading whitespace.
pub open spec fn trim_start(s: Seq<char>) -> Seq<char>
    decreases s.len(),
{
    if s.len() > 0 && is_whitespace(s[0]) {
        trim_start(s.drop_first())
    } else {
        s
    }
}

/// `s` without its trailing whitespace.
pub open spec fn trim_end(s: Seq<char>) -> Seq<char>
    decreases s.len(),
{
    if s.len() > 0 && is_whitespace(s.last()) {
        trim_end(s.drop_last())
    } else {
        s
    }
}

/// `s` without leading and trailing whitespace (`str::trim`).
pub open spec fn trim(s: Seq<char>) -> Seq<char> {
    trim_end(trim_start(s))
}

pub fn trim_chars(s: &Vec<char>) -> (r: Vec<char>)
    ensures
        r@ == trim(s@),
{
    let n = s.len();
    let mut i: usize = 0;
    assert(s@.skip(0) =~= s@);
    while i < n && char_is_whitespace(s[i])
        invariant
            i <= n == s@.len(),
            trim_start(s@.skip(i as int)) == trim_start(s@),
        decreases n - i,
    {
        assert(s@.skip(i as int).drop_first() =~= s@.skip(i + 1));
        i = i + 1;
    }
    let ghost t = s@.skip(i as int);
    assert(trim_start(t) == t);
    let mut j: usize = n;
    assert(t.subrange(0, (j - i) as int) =~= t);
    while j > i && char_is_whitespace(s[j - 1])
        invariant
            i <= j <= n == s@.len(),
            t == s@.skip(i as int),
            trim_end(t.subrange(0, (j - i) as int)) == trim_end(t),
        decreases j,
    {
        assert(t.subrange(0, (j - i) as int).drop_last() =~= t.subrange(0, (j - 1 - i) as int));
        j = j - 1;
    }
    let r = sub_chars(s, i, j);
    assert(r@ =~= t.subrange(0, (j - i) as int));
    r
}

/// `s` keeping only the characters that are not `c` (`String::retain` with `|x| x != c`,
/// or `replace` of the one-character string by nothing).
pub open spec fn remove_char(s: Seq<char>, c: char) -> Seq<char>
    decreases s.len(),
{
    if s.len() == 0 {
        s
    } else if s.last() == c {
        remove_char(s.drop_last(), c)
    } else {
        remove_char(s.drop_last(), c).push(s.last())
    }
}

pub fn remove_char_chars(s: &Vec<char>, c: char) -> (r: Vec<char>)
    ensures
        r@ == remove_char(s@, c),
{
    let mut r: Vec<char> = Vec::new();
    let mut i: usize = 0;
    while i < s.len()
        invariant
            i <= s@.len(),
            r@ == remove_char(s@.take(i as int), c),
        decreases s@.len() - i,
    {
        assert(s@.take(i + 1).drop_last() =~= s@.take(i as int));
        if s[i] != c {
            r.push(s[i]);
        }
        i = i + 1;
    }
    assert(s@.take(s@.len() as int) =~= s@);
    r
}

/// The ASCII lowercase of `c`: `A`..=`Z` become `a`..=`z`, every other character stays.
pub open spec fn ascii_lower(c: char) -> char {
    if 'A' <= c && c <= 'Z' {
        ((c as u32) + 32) as char
    } else {
        c
    }
}

/// `s` with its ASCII letters in lower case (`str::to_ascii_lowercase`).
pub open spec fn ascii_lowercase(s: Seq<char>) -> Seq<char> {
    s.map_values(|c: char| ascii_lower(c))
}

pub fn ascii_lowercase_chars(s: &Vec<char>) -> (r: Vec<char>)
    ensures
        r@ == ascii_lowercase(s@),
{
    let mut r: Vec<char> = Vec::new();
    let mut i: usize = 0;
    while i < s.len()
        invariant
            i <= s@.len(),
            r@ == ascii_lowercase(s@.take(i as int)),
        decreases s@.len() - i,
    {
        let c = s[i];
        let l = if 'A' <= c && c <= 'Z' {
            ((c as u8) + 32) as char
        } else {
            c
        };
        assert(l == ascii_lower(c));
        r.push(l);
        i = i + 1;
        assert(r@ =~= ascii_lowercase(s@.take(i as int)));
    }
    assert(s@.take(s@.len() as int) =~= s@);
    r
}


/// Whether `c` is an ASCII character.
pub open spec fn is_ascii(c: char) -> bool {
    (c as u32) < 128
}

/// Whether every character of `s` is ASCII.
pub open spec fn all_ascii(s: Seq<char>) -> bool {
    forall|i: int| 0 <= i < s.len() ==> is_ascii(#[trigger] s[i])
}

/// What `str::to_lowercase` returns for a string with the characters `s`, when the string is
/// not all ASCII (the full Unicode lowercase mapping, which depends on the string alone).
pub uninterp spec fn unicode_lowercase(s: Seq<char>) -> Seq<char>;

/// What `str::to_lowercase` returns for a string with the characters `s`: on ASCII text, each
/// `A`..=`Z` becomes `a`..=`z` and every other character stays.
pub open spec fn lowercase(s: Seq<char>) -> Seq<char> {
    if all_ascii(s) {
        ascii_lowercase(s)
    } else {
        unicode_lowercase(s)
    }
}

/// `str::to_lowercase` on the string made of `s`. Claimed of it: on ASCII text it lowers the
/// ASCII letters and keeps every other character, as its documentation's Unicode mapping does
/// there; otherwise the result is `unicode_lowercase(s)`, a function of the characters alone.
#[verifier::external_body]
pub(crate) fn lowercase_chars(s: &Vec<char>) -> (r: Vec<char>)
    ensures
        r@ == lowercase(s@),
        !all_ascii(s@) ==> r@ == unicode_lowercase(s@),
{
    let st: String = s.iter().collect();
    st.to_lowercase().chars().collect()
}

/// The ASCII uppercase of `c`: `a`..=`z` become `A`..=`Z`, every other character stays.
pub open spec fn ascii_upper(c: char) -> char {
    if 'a' <= c && c <= 'z' {
        ((c as u32) - 32) as char
    } else {
        c
    }
}

/// What `char::to_uppercase` yields for a non-ASCII `c` (its Unicode uppercase mapping).
pub uninterp spec fn unicode_uppercase(c: char) -> Seq<char>;

/// What `char::to_uppercase` yields for `c`: for an ASCII character, its ASCII uppercase alone.
pub open spec fn uppercase(c: char) -> Seq<char> {
    if is_ascii(c) {
        seq![ascii_upper(c)]
    } else {
        unicode_uppercase(c)
    }
}

/// `char::to_uppercase`, collected. Claimed of it: an ASCII character gives its ASCII uppercase
/// (`a`..=`z` to `A`..=`Z`, any other ASCII character itself), as its documentation says;
/// another character gives `unicode_uppercase(c)`, a function of `c` alone, and there is at
/// least one character in every case.
#[verifier::external_body]
pub(crate) fn uppercase_char(c: char) -> (r: Vec<char>)
    ensures
        r@ == uppercase(c),
        !is_ascii(c) ==> r@ == unicode_uppercase(c),
        r@.len() >= 1,
{
    c.to_uppercase().collect()
}

// ---------------------------------------------------------------------------
// UTF-8 lengths (`str::len` counts bytes)
// ---------------------------------------------------------------------------

/// The number of bytes of `c` in UTF-8.
pub open spec fn utf8_len(c: char) -> nat {
    if (c as u32) < 0x80 {
        1
    } else if (c as u32) < 0x800 {
        2
    } else if (c as u32) < 0x10000 {
        3
    } else {
        4
    }
}

/// The number of bytes of `s` in UTF-8 (`str::len`).
pub open spec fn byte_len(s: Seq<char>) -> nat
    decreases s.len(),
{
    if s.len() == 0 {
        0
    } else {
        byte_len(s.drop_last()) + utf8_len(s.last())
    }
}

pub fn char_utf8_len(c: char) -> (n: usize)
    ensures
        n == utf8_len(c),
{
    let v = c as u32;
    if v < 0x80 {
        1
    } else if v < 0x800 {
        2
    } else if v < 0x10000 {
        3
    } else {
        4
    }
}

pub proof fn lemma_byte_len_take(s: Seq<char>, i: int)
    requires
        0 <= i < s.len(),
    ensures
        byte_len(s.take(i + 1)) == byte_len(s.take(i)) + utf8_len(s[i]),
{
    assert(s.take(i + 1).drop_last() =~= s.take(i));
}

pub proof fn lemma_byte_len_append(s: Seq<char>, t: Seq<char>)
    ensures
        byte_len(s + t) == byte_len(s) + byte_len(t),
    decreases t.len(),
{
    if t.len() > 0 {
        assert((s + t).drop_last() =~= s + t.drop_last());
        lemma_byte_len_append(s, t.drop_last());
    } else {
        assert(s + t =~= s);
    }
}

pub proof fn lemma_byte_len_ge_len(s: Seq<char>)
    ensures
        byte_len(s) >= s.len(),
    decreases s.len(),
{
    if s.len() > 0 {
        lemma_byte_len_ge_len(s.drop_last());
    }
}

/// The number of bytes of `s` in UTF-8.
pub fn byte_len_chars(s: &Vec<char>) -> (r: u128)
    ensures
        r == byte_len(s@),
{
    let mut total: u128 = 0;
    let mut i: usize = 0;
    while i < s.len()
        invariant
            i <= s@.len(),
            total == byte_len(s@.take(i as int)),
            total <= 4 * i,
        decreases s@.len() - i,
    {
        proof {
            lemma_byte_len_take(s@, i as int);
        }
        total = total + char_utf8_len(s[i]) as u128;
        i = i + 1;
    }
    assert(s@.take(s@.len() as int) =~= s@);
    total
}

/// The index of the character that starts at byte offset `b` of `s`, if a character starts
/// there (`String::remove` panics otherwise).
pub open spec fn char_at_byte(s: Seq<char>, b: int) -> Option<int>
    decreases s.len(),
{
    if s.len() == 0 || b < 0 {
        None
    } else if b == 0 {
        Some(0)
    } else if b < utf8_len(s[0]) {
        None
    } else {
        match char_at_byte(s.drop_first(), b - utf8_len(s[0])) {
            Some(k) => Some(k + 1),
            None => None,
        }
    }
}

pub proof fn lemma_char_at_byte(s: Seq<char>, b: int)
    ensures
        match char_at_byte(s, b) {
            Some(k) => 0 <= k < s.len() && byte_len(s.take(k)) == b,
            None => true,
        },
        (exists|k: int| 0 <= k < s.len() && byte_len(s.take(k)) == b) ==> char_at_byte(s, b) is Some,
    decreases s.len(),
{
    if s.len() == 0 || b < 0 {
        if b < 0 {
            assert forall|k: int| 0 <= k < s.len() implies byte_len(s.take(k)) != b by {}
        }
    } else {
        lemma_char_at_byte(s.drop_first(), b - utf8_len(s[0]));
        assert forall|k: int| 0 < k <= s.len() implies byte_len(#[trigger] s.take(k))
            == utf8_len(s[0]) + byte_len(s.drop_first().take(k - 1)) by {
            let one = seq![s[0]];
            assert(s.take(k) =~= one + s.drop_first().take(k - 1));
            lemma_byte_len_append(one, s.drop_first().take(k - 1));
            assert(one.drop_last() =~= Seq::<char>::empty());
            assert(byte_len(Seq::<char>::empty()) == 0);
            assert(byte_len(one) == byte_len(one.drop_last()) + utf8_len(one.last()));
        }
        assert(s.take(0) =~= Seq::<char>::empty());
        if b == 0 {
        } else if b < utf8_len(s[0]) {
            assert forall|k: int| 0 <= k < s.len() implies byte_len(s.take(k)) != b by {
                if k > 0 {
                    assert(byte_len(s.take(k)) == utf8_len(s[0]) + byte_len(
                        s.drop_first().take(k - 1),
                    ));
                }
            }
        } else {
            if let Some(k) = char_at_byte(s.drop_first(), b - utf8_len(s[0])) {
                assert(byte_len(s.take(k + 1)) == utf8_len(s[0]) + byte_len(
                    s.drop_first().take(k),
                ));
            }
            if exists|k: int| 0 <= k < s.len() && byte_len(s.take(k)) == b {
                let k = choose|k: int| 0 <= k < s.len() && byte_len(s.take(k)) == b;
                assert(k > 0);
                assert(byte_len(s.take(k)) == utf8_len(s[0]) + byte_len(
                    s.drop_first().take(k - 1),
                ));
                assert(0 <= k - 1 < s.drop_first().len());
            }
        }
    }
}

/// The index of the character starting at byte offset `b` of `s`, if any.
pub fn char_at_byte_chars(s: &Vec<char>, b: usize) -> (r: Option<usize>)
    ensures
        match r {
            Some(k) => char_at_byte(s@, b as int) == Some(k as int),
            None => char_at_byte(s@, b as int) is None,
        },
{
    let mut total: u128 = 0;
    let mut i: usize = 0;
    proof {
        lemma_char_at_byte(s@, b as int);
    }
    assert(s@.take(0) =~= Seq::<char>::empty());
    while i < s.len()
        invariant
            i <= s@.len(),
            total == byte_len(s@.take(i as int)),
            total <= b,
            total <= 4 * i,
            forall|k: int| 0 <= k < i ==> byte_len(#[trigger] s@.take(k)) < b,
            match char_at_byte(s@, b as int) {
                Some(k) => 0 <= k < s@.len() && byte_len(s@.take(k)) == b,
                None => true,
            },
            (exists|k: int| 0 <= k < s@.len() && byte_len(s@.take(k)) == b) ==> char_at_byte(s@, b as int) is Some,
        decreases s@.len() - i,
    {
        if total == b as u128 {
            proof {
                if let Some(k) = char_at_byte(s@, b as int) {
                    if k != i {
                        if k < i {
                        } else {
                            lemma_byte_len_prefix_mono(s@, i as int, k);
                            lemma_byte_len_take(s@, i as int);
                            lemma_byte_len_prefix_mono(s@, i + 1, k);
                        }
                    }
                }
            }
            return Some(i);
        }
        proof {
            lemma_byte_len_take(s@, i as int);
        }
        total = total + char_utf8_len(s[i]) as u128;
        i = i + 1;
        if total > b as u128 {
            proof {
                assert forall|k: int| 0 <= k < s@.len() implies byte_len(s@.take(k)) != b by {
                    if k >= i {
                        lemma_byte_len_prefix_mono(s@, i as int, k);
                    }
                }
            }
            return None;
        }
    }
    proof {
        assert forall|k: int| 0 <= k < s@.len() implies byte_len(s@.take(k)) != b by {}
    }
    None
}

/// Byte lengths of prefixes grow with the prefix.
pub proof fn lemma_byte_len_prefix_mono(s: Seq<char>, i: int, j: int)
    requires
        0 <= i <= j <= s.len(),
    ensures
        byte_len(s.take(i)) <= byte_len(s.take(j)),
        i < j ==> byte_len(s.take(i)) < byte_len(s.take(j)),
    decreases j - i,
{
    if i < j {
        lemma_byte_len_take(s, j - 1);
        lemma_byte_len_prefix_mono(s, i, j - 1);
    }
}


// ---------------------------------------------------------------------------
// Decimal numbers
// ---------------------------------------------------------------------------

/// The decimal digit `d` (0..=9) as a character.
pub open spec fn digit_char(d: int) -> char {
    (48 + d) as char
}

pub open spec fn is_digit(c: char) -> bool {
    '0' <= c && c <= '9'
}

pub open spec fn digit_value(c: char) -> int {
    (c as int) - 48
}

/// The decimal representation of `n`, without leading zeros (`ToString` of an unsigned integer).
pub open spec fn decimal(n: nat) -> Seq<char>
    decreases n,
{
    if n < 10 {
        seq![digit_char(n as int)]
    } else {
        decimal(n / 10).push(digit_char((n % 10) as int))
    }
}

/// The number written by the decimal digits `s`.
pub open spec fn digits_value(s: Seq<char>) -> nat
    decreases s.len(),
{
    if s.len() == 0 {
        0
    } else {
        (digits_value(s.drop_last()) * 10 + digit_value(s.last())) as nat
    }
}

pub open spec fn all_digits(s: Seq<char>) -> bool {
    forall|i: int| 0 <= i < s.len() ==> is_digit(#[trigger] s[i])
}

/// What `str::parse` gives for an unsigned integer type whose maximum is `max`: an optional
/// `+`, then at least one decimal digit, and a value no larger than `max`.
pub open spec fn parse_unsigned(s: Seq<char>, max: nat) -> Option<nat> {
    let t = if s.len() > 0 && s[0] == '+' {
        s.drop_first()
    } else {
        s
    };
    if t.len() > 0 && all_digits(t) && digits_value(t) <= max {
        Some(digits_value(t))
    } else {
        None
    }
}

/// What `str::parse::<bool>` gives.
pub open spec fn parse_bool(s: Seq<char>) -> Option<bool> {
    if s == seq!['t', 'r', 'u', 'e'] {
        Some(true)
    } else if s == seq!['f', 'a', 'l', 's', 'e'] {
        Some(false)
    } else {
        None
    }
}

pub fn digit_to_char(d: u8) -> (c: char)
    requires
        d < 10,
    ensures
        c == digit_char(d as int),
{
    (48u8 + d) as char
}

/// Appends the decimal representation of `n` to `out`.
pub fn push_decimal(out: &mut Vec<char>, n: u128)
    ensures
        final(out)@ == old(out)@ + decimal(n as nat),
    decreases n,
{
    if n < 10 {
        out.push(digit_to_char(n as u8));
        assert(decimal(n as nat) == seq![digit_char(n as int)]);
    } else {
        push_decimal(out, n / 10);
        let ghost mid = out@;
        out.push(digit_to_char((n % 10) as u8));
        assert(out@ =~= old(out)@ + decimal(n as nat));
    }
}

/// The decimal representation of `n`.
pub fn decimal_chars(n: u128) -> (r: Vec<char>)
    ensures
        r@ == decimal(n as nat),
{
    let mut r: Vec<char> = Vec::new();
    push_decimal(&mut r, n);
    assert(r@ =~= decimal(n as nat));
    r
}

pub proof fn lemma_decimal_digits(n: nat)
    ensures
        decimal(n).len() > 0,
        all_digits(decimal(n)),
        digits_value(decimal(n)) == n,
        decimal(n)[0] != '+',
    decreases n,
{
    if n < 10 {
        assert(decimal(n).drop_last() =~= Seq::<char>::empty());
        assert(digit_value(digit_char(n as int)) == n);
        assert(digits_value(Seq::<char>::empty()) == 0);
        assert(digits_value(decimal(n)) == digits_value(decimal(n).drop_last()) * 10 + digit_value(decimal(n).last()));
    } else {
        lemma_decimal_digits(n / 10);
        let d = decimal(n);
        assert(d.drop_last() =~= decimal(n / 10));
        vstd::arithmetic::div_mod::lemma_fundamental_div_mod(n as int, 10);
        assert(digit_value(digit_char((n % 10) as int)) == n % 10);
        assert(n == 10 * (n / 10) + n % 10);
        assert forall|i: int| 0 <= i < d.len() implies is_digit(#[trigger] d[i]) by {
            if i < d.len() - 1 {
                assert(d[i] == decimal(n / 10)[i]);
            }
        }
    }
}

/// Parsing the decimal representation of `n` gives `n` back.
pub proof fn lemma_parse_decimal(n: nat, max: nat)
    requires
        n <= max,
    ensures
        parse_unsigned(decimal(n), max) == Some(n),
{
    lemma_decimal_digits(n);
}

/// Parses `s` as an unsigned decimal no larger than `max`.
pub fn parse_unsigned_chars(s: &Vec<char>, max: u64) -> (r: Option<u64>)
    ensures
        match r {
            Some(v) => parse_unsigned(s@, max as nat) == Some(v as nat),
            None => parse_unsigned(s@, max as nat) is None,
        },
{
    let n = s.len();
    let start: usize = if n > 0 && s[0] == '+' {
        1
    } else {
        0
    };
    let ghost t = if s@.len() > 0 && s@[0] == '+' {
        s@.drop_first()
    } else {
        s@
    };
    assert(t =~= s@.skip(start as int));
    if start >= n {
        return None;
    }
    let mut v: u64 = 0;
    let mut i: usize = start;
    assert(t.take(0) =~= Seq::<char>::empty());
    while i < n
        invariant
            start <= i <= n == s@.len(),
            t == s@.skip(start as int),
            t == (if s@.len() > 0 && s@[0] == '+' {
                s@.drop_first()
            } else {
                s@
            }),
            all_digits(t.take(i - start)),
            v == digits_value(t.take(i - start)),
            v <= max,
        decreases n - i,
    {
        let c = s[i];
        let ghost pre = t.take(i - start);
        assert(t.take(i + 1 - start).drop_last() =~= pre);
        assert(t[i - start] == c);
        if !('0' <= c && c <= '9') {
            assert(!all_digits(t));
            proof {
                lemma_parse_unsigned_not_digits(s@, max as nat, t);
            }
            return None;
        }
        let d = ((c as u32) - 48) as u64;
        assert(d == digit_value(c));
        if d > max || v > (max - d) / 10 {
            proof {
                assert(all_digits(t.take(i + 1 - start)));
                assert(digits_value(t.take(i + 1 - start)) == v * 10 + d);
                assert(v * 10 + d > max) by (nonlinear_arith)
                    requires
                        d > max || v > (max - d) / 10,
                        d <= 9,
                ;
                if all_digits(t) {
                    lemma_digits_value_prefix(t, (i + 1 - start) as int);
                }
                lemma_parse_unsigned_not_digits(s@, max as nat, t);
            }
            return None;
        }
        assert(v * 10 + d <= max) by (nonlinear_arith)
            requires
                d <= max,
                v <= (max - d) / 10,
        ;
        v = v * 10 + d;
        i = i + 1;
        assert(all_digits(t.take(i - start)));
    }
    assert(t.take(n - start) =~= t);
    Some(v)
}

proof fn lemma_parse_unsigned_not_digits(s: Seq<char>, max: nat, t: Seq<char>)
    requires
        t == (if s.len() > 0 && s[0] == '+' {
            s.drop_first()
        } else {
            s
        }),
        !all_digits(t) || digits_value(t) > max,
    ensures
        parse_unsigned(s, max) is None,
{
}

/// The value of a digit string is at least the value of any of its prefixes.
pub proof fn lemma_digits_value_prefix(t: Seq<char>, k: int)
    requires
        0 <= k <= t.len(),
        all_digits(t),
    ensures
        digits_value(t.take(k)) <= digits_value(t),
    decreases t.len() - k,
{
    if k < t.len() {
        lemma_digits_value_prefix(t, k + 1);
        assert(t.take(k + 1).drop_last() =~= t.take(k));
        assert(is_digit(t[k]));
    } else {
        assert(t.take(k) =~= t);
    }
}

pub fn parse_bool_chars(s: &Vec<char>) -> (r: Option<bool>)
    ensures
        r == parse_bool(s@),
{
    let t = vec!['t', 'r', 'u', 'e'];
    let f = vec!['f', 'a', 'l', 's', 'e'];
    if s.len() == 4 && matches_at(s, &t, 0) {
        assert(s@ =~= t@);
        Some(true)
    } else if s.len() == 5 && matches_at(s, &f, 0) {
        assert(s@ =~= f@);
        Some(false)
    } else {
        proof {
            if s@ == seq!['t', 'r', 'u', 'e'] {
                assert(s@.subrange(0, 4) =~= t@);
            }
            if s@ == seq!['f', 'a', 'l', 's', 'e'] {
                assert(s@.subrange(0, 5) =~= f@);
            }
        }
        None
    }
}

} // verus!
