use vstd::prelude::*;

use crate::text::{
    all_ascii, lemma_remove_char_absent, lemma_replace_absent,
    chars_equal,
    byte_len, byte_len_chars, char_at_byte, char_at_byte_chars, chars_of, contains,
    contains_chars, ends_with, ends_with_chars, lemma_byte_len_append, lemma_byte_len_ge_len,
    lowercase, lowercase_chars, is_whitespace, char_is_whitespace, remove_char, remove_char_chars,
    replace, replace_chars, starts_with, starts_with_chars, string_of,
};

verus! {

/// A card: a character of a series, with its generation and wishlist count when known.
pub struct Character {
    pub name: String,
    pub series: String,
    pub gen: Option<u16>,
    pub wl: Option<u32>,
}

/// The value of a [`Character`].
pub struct CharacterView {
    pub name: Seq<char>,
    pub series: Seq<char>,
    pub gen: Option<u16>,
    pub wl: Option<u32>,
}

impl View for Character {
    type V = CharacterView;

    open spec fn view(&self) -> CharacterView {
        CharacterView { name: self.name@, series: self.series@, gen: self.gen, wl: self.wl }
    }
}

impl Character {
    /// A copy of this card.
    pub fn duplicate(&self) -> (r: Character)
        ensures
            r@ == self@,
    {
        Character { name: self.name.clone(), series: self.series.clone(), gen: self.gen, wl: self.wl }
    }
}

/// Why a comparison cannot be carried out.
#[derive(PartialEq, Eq, Structural, Debug, Clone, Copy)]
pub enum CardError {
    /// A character is to be removed at a byte offset that is not a character boundary.
    CharBoundary,
    /// A name ending in `..` is too short to look at its third-to-last byte position.
    DotIndex,
}

pub open spec fn dots() -> Seq<char> {
    seq!['.', '.', '.']
}

pub open spec fn four_dots() -> Seq<char> {
    seq!['.', '.', '.', '.']
}

pub open spec fn two_dots() -> Seq<char> {
    seq!['.', '.']
}

/// `s` without whitespace and without `!`.
pub open spec fn strip_blank_and_bang(s: Seq<char>) -> Seq<char>
    decreases s.len(),
{
    if s.len() == 0 {
        s
    } else if is_whitespace(s.last()) || s.last() == '!' {
        strip_blank_and_bang(s.drop_last())
    } else {
        strip_blank_and_bang(s.drop_last()).push(s.last())
    }
}

/// The form in which names are compared: lower case, without whitespace or `!`, and without
/// `...`, `'` and `’`.
pub open spec fn processed(s: Seq<char>) -> Seq<char> {
    replace(
        replace(replace(strip_blank_and_bang(lowercase(s)), dots(), seq![]), seq!['\''], seq![]),
        seq!['’'],
        seq![],
    )
}

/// Two characters that the text recognition confuses, so that a single difference between
/// them still counts as equal: either is `|` or `’`, or they are one of the pairs
/// `o`/`0`, `l`/`i`, `1`/`]`, `y`/`v`, `$`/`s`, `i`/`!`, `s`/`5`, `©`/`o`, `1`/`i`, `a`/`é`.
pub open spec fn balanced(c1: char, c2: char) -> bool {
    let pair = |x: char, y: char| (c1 == x && c2 == y) || (c1 == y && c2 == x);
    ||| c1 == '|' || c2 == '|'
    ||| c1 == '’' || c2 == '’'
    ||| pair('o', '0')
    ||| pair('l', 'i')
    ||| pair('1', ']')
    ||| pair('y', 'v')
    ||| pair('$', 's')
    ||| pair('i', '!')
    ||| pair('s', '5')
    ||| pair('©', 'o')
    ||| pair('1', 'i')
    ||| pair('a', 'é')
}

/// The first position, at or after `i`, at which `a` and `b` differ, within the shorter length.
pub open spec fn mismatch_from(a: Seq<char>, b: Seq<char>, i: nat) -> Option<nat>
    decreases a.len() - i,
{
    if i >= a.len() || i >= b.len() {
        None
    } else if a[i as int] != b[i as int] {
        Some(i)
    } else {
        mismatch_from(a, b, i + 1)
    }
}

/// How a query name relates to a stored name once both are aligned: a dotted (truncated)
/// query may be a prefix of the stored name, a dotted stored name may be a prefix of the query.
pub open spec fn prefix_related(card: Seq<char>, ch: Seq<char>, is_dot: bool, is_dot_char: bool) -> bool {
    if is_dot && is_dot_char {
        starts_with(card, ch) || starts_with(ch, card)
    } else if is_dot {
        card != ch && starts_with(ch, card)
    } else if is_dot_char {
        starts_with(card, ch)
    } else {
        card == ch
    }
}

/// Whether the query `card` names the stored `character`, tolerating one confusable character;
/// `None` where the comparison removes a character at a byte offset that is no character boundary.
pub open spec fn sub_find(card: Seq<char>, character: Seq<char>, is_dot: bool) -> Option<bool> {
    let unstarred = remove_char(character, '★');
    let is_dot_char = contains(unstarred, dots());
    let ch = replace(unstarred, dots(), seq![]);
    match mismatch_from(card, ch, 0) {
        None => Some(prefix_related(card, ch, is_dot, is_dot_char)),
        Some(i) => match (char_at_byte(ch, i as int), char_at_byte(card, i as int)) {
            (Some(kc), Some(kd)) => if balanced(card[i as int], ch[i as int]) {
                Some(prefix_related(card.remove(kd), ch.remove(kc), is_dot, is_dot_char))
            } else {
                Some(false)
            },
            _ => None,
        },
    }
}

pub proof fn lemma_prefix_byte_len(a: Seq<char>, b: Seq<char>)
    requires
        starts_with(a, b),
    ensures
        byte_len(b) <= byte_len(a),
        byte_len(b) == byte_len(a) ==> a == b,
{
    let rest = a.skip(b.len() as int);
    assert(a =~= b + rest);
    lemma_byte_len_append(b, rest);
    lemma_byte_len_ge_len(rest);
}

/// The pair with the longer (in bytes) string first; on a tie the second string comes first.
fn longest_string(str1: Vec<char>, str2: Vec<char>) -> (r: (Vec<char>, Vec<char>))
    ensures
        byte_len(str1@) > byte_len(str2@) ==> r.0@ == str1@ && r.1@ == str2@,
        byte_len(str1@) <= byte_len(str2@) ==> r.0@ == str2@ && r.1@ == str1@,
{
    if byte_len_chars(&str1) > byte_len_chars(&str2) {
        (str1, str2)
    } else {
        (str2, str1)
    }
}

fn prefix_related_chars(card: &Vec<char>, ch: &Vec<char>, is_dot: bool, is_dot_char: bool) -> (b: bool)
    ensures
        b == prefix_related(card@, ch@, is_dot, is_dot_char),
{
    let (longer, shorter) = longest_string(card.clone(), ch.clone());
    if is_dot && is_dot_char {
        proof {
            if starts_with(card@, ch@) {
                lemma_prefix_byte_len(card@, ch@);
            }
            if starts_with(ch@, card@) {
                lemma_prefix_byte_len(ch@, card@);
            }
        }
        starts_with_chars(&longer, &shorter)
    } else if is_dot && !is_dot_char {
        if chars_equal(&longer, &shorter) {
            return false;
        }
        starts_with_chars(ch, card)
    } else if !is_dot && is_dot_char {
        starts_with_chars(card, ch)
    } else {
        chars_equal(card, ch)
    }
}

fn balanced_chars(c1: char, c2: char) -> (b: bool)
    ensures
        b == balanced(c1, c2),
{
    let pairs: [(char, char); 10] = [
        ('o', '0'),
        ('l', 'i'),
        ('1', ']'),
        ('y', 'v'),
        ('$', 's'),
        ('i', '!'),
        ('s', '5'),
        ('©', 'o'),
        ('1', 'i'),
        ('a', 'é'),
    ];
    if c1 == '|' || c2 == '|' || c1 == '’' || c2 == '’' {
        return true;
    }
    let mut k: usize = 0;
    while k < 10
        invariant
            k <= 10,
            pairs@ == seq![
                ('o', '0'),
                ('l', 'i'),
                ('1', ']'),
                ('y', 'v'),
                ('$', 's'),
                ('i', '!'),
                ('s', '5'),
                ('©', 'o'),
                ('1', 'i'),
                ('a', 'é'),
            ],
            forall|j: int|
                0 <= j < k ==> !((c1 == (#[trigger] pairs@[j]).0 && c2 == pairs@[j].1) || (c1
                    == pairs@[j].1 && c2 == pairs@[j].0)),
        decreases 10 - k,
    {
        let (x, y) = pairs[k];
        if (c1 == x && c2 == y) || (c1 == y && c2 == x) {
            return true;
        }
        k = k + 1;
    }
    assert(!((c1 == 'o' && c2 == '0') || (c1 == '0' && c2 == 'o'))) by { assert(pairs@[0] == ('o', '0')); }
    assert(!((c1 == 'l' && c2 == 'i') || (c1 == 'i' && c2 == 'l'))) by { assert(pairs@[1] == ('l', 'i')); }
    assert(!((c1 == '1' && c2 == ']') || (c1 == ']' && c2 == '1'))) by { assert(pairs@[2] == ('1', ']')); }
    assert(!((c1 == 'y' && c2 == 'v') || (c1 == 'v' && c2 == 'y'))) by { assert(pairs@[3] == ('y', 'v')); }
    assert(!((c1 == '$' && c2 == 's') || (c1 == 's' && c2 == '$'))) by { assert(pairs@[4] == ('$', 's')); }
    assert(!((c1 == 'i' && c2 == '!') || (c1 == '!' && c2 == 'i'))) by { assert(pairs@[5] == ('i', '!')); }
    assert(!((c1 == 's' && c2 == '5') || (c1 == '5' && c2 == 's'))) by { assert(pairs@[6] == ('s', '5')); }
    assert(!((c1 == '©' && c2 == 'o') || (c1 == 'o' && c2 == '©'))) by { assert(pairs@[7] == ('©', 'o')); }
    assert(!((c1 == '1' && c2 == 'i') || (c1 == 'i' && c2 == '1'))) by { assert(pairs@[8] == ('1', 'i')); }
    assert(!((c1 == 'a' && c2 == 'é') || (c1 == 'é' && c2 == 'a'))) by { assert(pairs@[9] == ('a', 'é')); }
    false
}

fn dots_chars() -> (r: Vec<char>)
    ensures
        r@ == dots(),
{
    let r = vec!['.', '.', '.'];
    assert(r@ =~= dots());
    r
}

/// Compares a query name with a stored name (see [`sub_find`]).
pub fn sub_find_chars(card: &Vec<char>, character: &Vec<char>, is_dot: bool) -> (r: Result<bool, CardError>)
    ensures
        match r {
            Ok(b) => sub_find(card@, character@, is_dot) == Some(b),
            Err(e) => sub_find(card@, character@, is_dot) is None && e == CardError::CharBoundary,
        },
{
    let unstarred = remove_char_chars(character, '★');
    let d = dots_chars();
    let is_dot_char = contains_chars(&unstarred, &d);
    let empty: Vec<char> = Vec::new();
    let ch = replace_chars(&unstarred, &d, &empty);
    assert(empty@ =~= seq![]);
    let n = if card.len() < ch.len() {
        card.len()
    } else {
        ch.len()
    };
    let mut i: usize = 0;
    while i < n && card[i] == ch[i]
        invariant
            n <= card@.len(),
            n <= ch@.len(),
            n == card@.len() || n == ch@.len(),
            i <= n,
            mismatch_from(card@, ch@, 0) == mismatch_from(card@, ch@, i as nat),
        decreases n - i,
    {
        i = i + 1;
    }
    if i == n {
        assert(mismatch_from(card@, ch@, i as nat) is None);
        return Ok(prefix_related_chars(card, &ch, is_dot, is_dot_char));
    }
    assert(mismatch_from(card@, ch@, i as nat) == Some(i as nat));
    let c1 = card[i];
    let c2 = ch[i];
    let kc = match char_at_byte_chars(&ch, i) {
        Some(k) => k,
        None => return Err(CardError::CharBoundary),
    };
    let kd = match char_at_byte_chars(card, i) {
        Some(k) => k,
        None => return Err(CardError::CharBoundary),
    };
    proof {
        crate::text::lemma_char_at_byte(ch@, i as int);
        crate::text::lemma_char_at_byte(card@, i as int);
    }
    let mut ch2 = ch.clone();
    ch2.remove(kc);
    let mut card2 = card.clone();
    card2.remove(kd);
    if !balanced_chars(c1, c2) {
        return Ok(false);
    }
    Ok(prefix_related_chars(&card2, &ch2, is_dot, is_dot_char))
}


fn strip_blank_and_bang_chars(s: &Vec<char>) -> (r: Vec<char>)
    ensures
        r@ == strip_blank_and_bang(s@),
{
    let mut r: Vec<char> = Vec::new();
    let mut i: usize = 0;
    while i < s.len()
        invariant
            i <= s@.len(),
            r@ == strip_blank_and_bang(s@.take(i as int)),
        decreases s@.len() - i,
    {
        assert(s@.take(i + 1).drop_last() =~= s@.take(i as int));
        let c = s[i];
        if !char_is_whitespace(c) && c != '!' {
            r.push(c);
        }
        i = i + 1;
    }
    assert(s@.take(s@.len() as int) =~= s@);
    r
}

/// Brings a name into the form in which names are compared (see [`processed`]).
pub fn process_string(s: &Vec<char>) -> (r: Vec<char>)
    ensures
        r@ == processed(s@),
{
    let lower = lowercase_chars(s);
    let kept = strip_blank_and_bang_chars(&lower);
    let empty: Vec<char> = Vec::new();
    let apostrophe = vec!['\''];
    let quote = vec!['’'];
    let a = replace_chars(&kept, &dots_chars(), &empty);
    let b = replace_chars(&a, &apostrophe, &empty);
    let c = replace_chars(&b, &quote, &empty);
    assert(empty@ =~= seq![]);
    assert(apostrophe@ =~= seq!['\'']);
    assert(quote@ =~= seq!['’']);
    c
}

/// How a looked-up name is repaired before comparison: a trailing `....` is read as `...`
/// (every `....` is replaced), and a name ending in `..` whose character at the position of
/// its third-to-last byte is not `.` gets a third `.`. `None` where that position is past the
/// end of the name.
pub open spec fn repair_dots(s: Seq<char>) -> Option<Seq<char>> {
    let s1 = if ends_with(s, four_dots()) {
        replace(s, four_dots(), dots())
    } else {
        s
    };
    if ends_with(s1, two_dots()) {
        let b = byte_len(s1);
        if b < 3 || b - 3 >= s1.len() {
            None
        } else if s1[b - 3] != '.' {
            Some(s1.push('.'))
        } else {
            Some(s1)
        }
    } else {
        Some(s1)
    }
}

fn repair_dots_chars(s: &Vec<char>) -> (r: Result<Vec<char>, CardError>)
    ensures
        match r {
            Ok(v) => repair_dots(s@) == Some(v@),
            Err(e) => repair_dots(s@) is None && e == CardError::DotIndex,
        },
{
    let four = vec!['.', '.', '.', '.'];
    assert(four@ =~= four_dots());
    let mut s1 = if ends_with_chars(s, &four) {
        replace_chars(s, &four, &dots_chars())
    } else {
        s.clone()
    };
    let two = vec!['.', '.'];
    assert(two@ =~= two_dots());
    if ends_with_chars(&s1, &two) {
        let b = byte_len_chars(&s1);
        if b < 3 || b - 3 >= s1.len() as u128 {
            return Err(CardError::DotIndex);
        }
        let k = (b - 3) as usize;
        if s1[k] != '.' {
            s1.push('.');
        }
        Ok(s1)
    } else {
        Ok(s1)
    }
}

/// The compared form of a name and whether it is truncated (ends in `...`), as a lookup
/// prepares it.
pub open spec fn lookup_key(s: Seq<char>) -> Option<(Seq<char>, bool)> {
    match repair_dots(s) {
        Some(r) => Some((processed(r), ends_with(r, dots()))),
        None => None,
    }
}

/// The compared form of a name and whether it is truncated, as an update prepares it.
pub open spec fn update_key(s: Seq<char>) -> (Seq<char>, bool) {
    (processed(s), ends_with(s, dots()))
}

/// Whether the stored card `e` answers the query (name first, then series).
pub open spec fn entry_matches(
    qname: Seq<char>,
    dot_name: bool,
    qseries: Seq<char>,
    dot_series: bool,
    e: CharacterView,
) -> Option<bool> {
    match sub_find(qname, e.name, dot_name) {
        Some(true) => sub_find(qseries, e.series, dot_series),
        other => other,
    }
}

/// The outcome of a search through the stored cards.
pub enum Probe {
    /// The first card that matches, every card before it having compared as different.
    Hit(nat),
    /// Every card compared as different.
    Miss,
    /// A comparison failed before any card matched.
    Fault,
}

pub open spec fn search_from(
    entries: Seq<CharacterView>,
    qname: Seq<char>,
    dot_name: bool,
    qseries: Seq<char>,
    dot_series: bool,
    i: nat,
) -> Probe
    decreases entries.len() - i,
{
    if i >= entries.len() {
        Probe::Miss
    } else {
        match entry_matches(qname, dot_name, qseries, dot_series, entries[i as int]) {
            None => Probe::Fault,
            Some(true) => Probe::Hit(i),
            Some(false) => search_from(entries, qname, dot_name, qseries, dot_series, i + 1),
        }
    }
}

pub proof fn lemma_search_from(
    entries: Seq<CharacterView>,
    qname: Seq<char>,
    dot_name: bool,
    qseries: Seq<char>,
    dot_series: bool,
    i: nat,
)
    ensures
        match search_from(entries, qname, dot_name, qseries, dot_series, i) {
            Probe::Hit(k) => i <= k < entries.len() && entry_matches(
                qname,
                dot_name,
                qseries,
                dot_series,
                entries[k as int],
            ) == Some(true) && forall|j: int|
                i <= j < k ==> entry_matches(qname, dot_name, qseries, dot_series, #[trigger] entries[j])
                    == Some(false),
            Probe::Miss => forall|j: int|
                i <= j < entries.len() ==> entry_matches(
                    qname,
                    dot_name,
                    qseries,
                    dot_series,
                    #[trigger] entries[j],
                ) == Some(false),
            Probe::Fault => exists|k: int|
                i <= k < entries.len() && entry_matches(
                    qname,
                    dot_name,
                    qseries,
                    dot_series,
                    #[trigger] entries[k],
                ) is None,
        },
    decreases entries.len() - i,
{
    if i < entries.len() {
        lemma_search_from(entries, qname, dot_name, qseries, dot_series, i + 1);
    }
}

pub open spec fn search(
    entries: Seq<CharacterView>,
    qname: Seq<char>,
    dot_name: bool,
    qseries: Seq<char>,
    dot_series: bool,
) -> Probe {
    search_from(entries, qname, dot_name, qseries, dot_series, 0)
}

/// A stored card as loaded from the database: `!` and `:` are taken out of its series.
pub open spec fn stored_form(c: CharacterView) -> CharacterView {
    CharacterView {
        series: replace(remove_char(c.series, '!'), seq![':'], seq![]),
        ..c
    }
}

/// What a lookup of `card` gives: the card with the wishlist count of the first stored card
/// that matches it, or the card unchanged when none does.
pub open spec fn lookup(entries: Seq<CharacterView>, card: CharacterView) -> Result<CharacterView, CardError> {
    match (lookup_key(card.name), lookup_key(card.series)) {
        (Some((qn, dn)), Some((qs, ds))) => match search(entries, qn, dn, qs, ds) {
            Probe::Hit(i) => Ok(CharacterView { wl: entries[i as int].wl, ..card }),
            Probe::Miss => Ok(card),
            Probe::Fault => Err(CardError::CharBoundary),
        },
        _ => Err(CardError::DotIndex),
    }
}

/// What an update with `card` does: the stored cards afterwards, and the record to write back.
/// The first stored card that matches takes the new wishlist count; when none matches, a card
/// that is not truncated is added in its compared form.
pub open spec fn update(entries: Seq<CharacterView>, card: CharacterView) -> (
    Seq<CharacterView>,
    Result<Option<CharacterView>, CardError>,
) {
    let (qn, dn) = update_key(card.name);
    let (qs, ds) = update_key(card.series);
    match search(entries, qn, dn, qs, ds) {
        Probe::Hit(i) => {
            let e = CharacterView { wl: card.wl, ..entries[i as int] };
            (entries.update(i as int, e), Ok(Some(e)))
        },
        Probe::Miss => if !dn && !ds {
            let e = CharacterView { name: qn, series: qs, ..card };
            (entries.push(e), Ok(Some(e)))
        } else {
            (entries, Ok(None))
        },
        Probe::Fault => (entries, Err(CardError::CharBoundary)),
    }
}

/// A search in which card `k` is the first to match, every card before it comparing as
/// different, finds card `k`.
pub proof fn lemma_search_hit(
    entries: Seq<CharacterView>,
    qname: Seq<char>,
    dot_name: bool,
    qseries: Seq<char>,
    dot_series: bool,
    k: nat,
    i: nat,
)
    requires
        i <= k < entries.len(),
        entry_matches(qname, dot_name, qseries, dot_series, entries[k as int]) == Some(true),
        forall|j: int|
            0 <= j < k ==> entry_matches(qname, dot_name, qseries, dot_series, #[trigger] entries[j])
                == Some(false),
    ensures
        search_from(entries, qname, dot_name, qseries, dot_series, i) == Probe::Hit(k),
    decreases k - i,
{
    if i < k {
        lemma_search_hit(entries, qname, dot_name, qseries, dot_series, k, i + 1);
        assert(entry_matches(qname, dot_name, qseries, dot_series, entries[i as int]) == Some(false));
    }
}

pub proof fn lemma_mismatch_self(p: Seq<char>, i: nat)
    ensures
        mismatch_from(p, p, i) is None,
    decreases p.len() - i,
{
    if i < p.len() {
        lemma_mismatch_self(p, i + 1);
    }
}

/// A compared form without `★` and without `...` matches itself.
pub proof fn lemma_sub_find_self(p: Seq<char>)
    requires
        !p.contains('★'),
        !contains(p, dots()),
    ensures
        sub_find(p, p, false) == Some(true),
{
    crate::text::lemma_remove_char_absent(p, '★');
    crate::text::lemma_replace_absent(p, dots(), seq![]);
    lemma_mismatch_self(p, 0);
}

/// Law: after an update that writes a record for `card`, looking the same card up gives back
/// the wishlist count that was written. This holds for cards whose name and series need no
/// repair before a lookup and whose compared forms hold neither `★` nor `...`.
pub proof fn law_lookup_after_update(entries: Seq<CharacterView>, card: CharacterView)
    requires
        repair_dots(card.name) == Some(card.name),
        repair_dots(card.series) == Some(card.series),
        !processed(card.name).contains('★'),
        !contains(processed(card.name), dots()),
        !processed(card.series).contains('★'),
        !contains(processed(card.series), dots()),
        update(entries, card).1 matches Ok(Some(_)),
    ensures
        lookup(update(entries, card).0, card) == Ok::<CharacterView, CardError>(
            CharacterView { wl: card.wl, ..card },
        ),
{
    let (qn, dn) = update_key(card.name);
    let (qs, ds) = update_key(card.series);
    let after = update(entries, card).0;
    lemma_search_from(entries, qn, dn, qs, ds, 0);
    match search(entries, qn, dn, qs, ds) {
        Probe::Hit(i) => {
            let e = CharacterView { wl: card.wl, ..entries[i as int] };
            assert(after == entries.update(i as int, e));
            assert forall|j: int| 0 <= j < i implies entry_matches(qn, dn, qs, ds, #[trigger] after[j])
                == Some(false) by {
                assert(after[j] == entries[j]);
            }
            lemma_search_hit(after, qn, dn, qs, ds, i, 0);
        },
        Probe::Miss => {
            let e = CharacterView { name: qn, series: qs, ..card };
            assert(after == entries.push(e));
            lemma_sub_find_self(qn);
            lemma_sub_find_self(qs);
            assert(after[entries.len() as int] == e);
            assert forall|j: int|
                0 <= j < entries.len() implies entry_matches(qn, dn, qs, ds, #[trigger] after[j])
                == Some(false) by {
                assert(after[j] == entries[j]);
            }
            lemma_search_hit(after, qn, dn, qs, ds, entries.len(), 0);
        },
        Probe::Fault => {},
    }
}

proof fn lemma_mismatch_swap(a: Seq<char>, b: Seq<char>, i: nat)
    ensures
        mismatch_from(a, b, i) == mismatch_from(b, a, i),
    decreases a.len() - i,
{
    if i < a.len() && i < b.len() && a[i as int] == b[i as int] {
        lemma_mismatch_swap(a, b, i + 1);
    }
}

proof fn lemma_mismatch_bounds(a: Seq<char>, b: Seq<char>, i: nat)
    ensures
        mismatch_from(a, b, i) matches Some(k) ==> k < a.len() && k < b.len(),
    decreases a.len() - i,
{
    if i < a.len() && i < b.len() && a[i as int] == b[i as int] {
        lemma_mismatch_bounds(a, b, i + 1);
    }
}

/// In ASCII text every character is one byte, so the character at byte `b` is the `b`-th.
proof fn lemma_char_at_byte_ascii(s: Seq<char>, b: int)
    requires
        all_ascii(s),
        0 <= b < s.len(),
    ensures
        char_at_byte(s, b) == Some(b),
    decreases s.len(),
{
    if b > 0 {
        assert(crate::text::is_ascii(s[0]));
        let t = s.drop_first();
        assert forall|i: int| 0 <= i < t.len() implies crate::text::is_ascii(#[trigger] t[i]) by {
            assert(t[i] == s[i + 1]);
        }
        lemma_char_at_byte_ascii(t, b - 1);
    }
}

/// An ASCII name holds no `★`, and one without `...` is compared as it is.
proof fn lemma_plain_name(s: Seq<char>)
    requires
        all_ascii(s),
        !contains(s, dots()),
    ensures
        remove_char(s, '★') == s,
        replace(s, dots(), seq![]) == s,
{
    assert(!s.contains('★')) by {
        if s.contains('★') {
            let k = choose|k: int| 0 <= k < s.len() && s[k] == '★';
            assert(crate::text::is_ascii(s[k]));
        }
    }
    lemma_remove_char_absent(s, '★');
    lemma_replace_absent(s, dots(), seq![]);
}

/// Law: comparing two ASCII names that hold no `...`, neither of them truncated, gives the same
/// answer whichever of them is the query.
pub proof fn law_sub_find_symmetric(a: Seq<char>, b: Seq<char>)
    requires
        all_ascii(a),
        all_ascii(b),
        !contains(a, dots()),
        !contains(b, dots()),
    ensures
        sub_find(a, b, false) == sub_find(b, a, false),
{
    lemma_plain_name(a);
    lemma_plain_name(b);
    lemma_mismatch_swap(a, b, 0);
    lemma_mismatch_bounds(a, b, 0);
    match mismatch_from(a, b, 0) {
        Some(i) => {
            lemma_char_at_byte_ascii(a, i as int);
            lemma_char_at_byte_ascii(b, i as int);
        },
        None => {},
    }
}

proof fn lemma_byte_len_ascii(s: Seq<char>)
    requires
        all_ascii(s),
    ensures
        byte_len(s) == s.len(),
    decreases s.len(),
{
    if s.len() > 0 {
        assert(crate::text::is_ascii(s.last()));
        let t = s.drop_last();
        assert forall|i: int| 0 <= i < t.len() implies crate::text::is_ascii(#[trigger] t[i]) by {
            assert(t[i] == s[i]);
        }
        lemma_byte_len_ascii(t);
    }
}

/// Law: a name read with two dots where its truncation has three is looked up as the truncated
/// name: for a non-empty ASCII name `n` that does not end in `.`, looking up a card named
/// `n..` gives the same wishlist count, or the same failure, as looking up the card named `n...`.
pub proof fn law_two_dots_read_as_truncation(
    entries: Seq<CharacterView>,
    n: Seq<char>,
    c: CharacterView,
)
    requires
        n.len() > 0,
        all_ascii(n),
        n.last() != '.',
    ensures
        match (
            lookup(entries, CharacterView { name: n + two_dots(), ..c }),
            lookup(entries, CharacterView { name: n + dots(), ..c }),
        ) {
            (Ok(a), Ok(b)) => a.wl == b.wl,
            (Err(a), Err(b)) => a == b,
            _ => false,
        },
{
    let s2 = n + two_dots();
    let s3 = n + dots();
    let l = n.len() as int;
    // `n..` does not end in `....`: its third-to-last character is the last of `n`.
    assert(!ends_with(s2, four_dots())) by {
        if ends_with(s2, four_dots()) {
            assert(s2.subrange(l - 2, l + 2)[1] == s2[l - 1]);
            assert(s2[l - 1] == n.last());
        }
    }
    assert(s2.subrange(l, l + 2) =~= two_dots());
    assert(ends_with(s2, two_dots()));
    lemma_byte_len_ascii(n);
    lemma_byte_len_append(n, two_dots());
    assert(all_ascii(two_dots()));
    lemma_byte_len_ascii(two_dots());
    assert(s2[l - 1] == n.last());
    assert(s2.push('.') =~= s3);
    assert(repair_dots(s2) == Some(s3));
    // `n...` needs no repair: its third-to-last character is a `.`.
    assert(!ends_with(s3, four_dots())) by {
        if ends_with(s3, four_dots()) {
            assert(s3.subrange(l - 1, l + 3)[0] == s3[l - 1]);
            assert(s3[l - 1] == n.last());
        }
    }
    assert(s3.subrange(l + 1, l + 3) =~= two_dots());
    lemma_byte_len_append(n, dots());
    assert(all_ascii(dots()));
    lemma_byte_len_ascii(dots());
    assert(s3[l] == '.');
    assert(repair_dots(s3) == Some(s3));
}

/// A name ending in `....` ends in `..`.
proof fn lemma_four_dots_end(s: Seq<char>)
    requires
        ends_with(s, four_dots()),
    ensures
        ends_with(s, two_dots()),
{
    let n = s.len() as int;
    assert(s.subrange(n - 4, n)[2] == s[n - 2]);
    assert(s.subrange(n - 4, n)[3] == s[n - 1]);
    assert(s.subrange(n - 2, n) =~= two_dots());
}

/// Law: after an update with `card`, when exactly one stored card (the one at `k`) matches it,
/// looking up any card of the same name and series gives the wishlist count that the update
/// wrote. Names and series ending in `..` are left out: a lookup repairs their dots first.
pub proof fn law_lookup_after_update_unique(
    entries: Seq<CharacterView>,
    card: CharacterView,
    other: CharacterView,
    k: int,
)
    requires
        !ends_with(card.name, two_dots()),
        !ends_with(card.series, two_dots()),
        other.name == card.name,
        other.series == card.series,
        0 <= k < update(entries, card).0.len(),
        entry_matches(
            update_key(card.name).0,
            update_key(card.name).1,
            update_key(card.series).0,
            update_key(card.series).1,
            update(entries, card).0[k],
        ) == Some(true),
        forall|j: int|
            0 <= j < update(entries, card).0.len() && j != k ==> entry_matches(
                update_key(card.name).0,
                update_key(card.name).1,
                update_key(card.series).0,
                update_key(card.series).1,
                #[trigger] update(entries, card).0[j],
            ) == Some(false),
    ensures
        lookup(update(entries, card).0, other) == Ok::<CharacterView, CardError>(
            CharacterView { wl: card.wl, ..other },
        ),
{
    let (qn, dn) = update_key(card.name);
    let (qs, ds) = update_key(card.series);
    let after = update(entries, card).0;
    if ends_with(card.name, four_dots()) {
        lemma_four_dots_end(card.name);
    }
    if ends_with(card.series, four_dots()) {
        lemma_four_dots_end(card.series);
    }
    assert(repair_dots(card.name) == Some(card.name));
    assert(repair_dots(card.series) == Some(card.series));
    assert(lookup_key(other.name) == Some((qn, dn)));
    assert(lookup_key(other.series) == Some((qs, ds)));
    assert forall|j: int| 0 <= j < k implies entry_matches(qn, dn, qs, ds, #[trigger] after[j])
        == Some(false) by {}
    lemma_search_hit(after, qn, dn, qs, ds, k as nat, 0);
    lemma_search_from(entries, qn, dn, qs, ds, 0);
    match search(entries, qn, dn, qs, ds) {
        Probe::Hit(i) => {
            let e = CharacterView { wl: card.wl, ..entries[i as int] };
            assert(after == entries.update(i as int, e));
            assert(entry_matches(qn, dn, qs, ds, after[i as int]) == entry_matches(
                qn,
                dn,
                qs,
                ds,
                entries[i as int],
            ));
            assert(i == k);
        },
        Probe::Miss => {
            if !dn && !ds {
                let e = CharacterView { name: qn, series: qs, ..card };
                assert(after == entries.push(e));
                if k < entries.len() {
                    assert(after[k] == entries[k]);
                }
                assert(k == entries.len());
            } else {
                assert(after == entries);
                assert(entry_matches(qn, dn, qs, ds, entries[k]) == Some(false));
            }
        },
        Probe::Fault => {
            assert(after == entries);
            let j = choose|j: int|
                0 <= j < entries.len() && entry_matches(qn, dn, qs, ds, #[trigger] entries[j]) is None;
            if j != k {
                assert(entry_matches(qn, dn, qs, ds, after[j]) == Some(false));
            }
        },
    }
}

/// Law: updating with the same card a second time changes a stored count instead of adding
/// another card, for cards whose compared forms hold neither `★` nor `...`.
pub proof fn law_update_twice_adds_nothing(entries: Seq<CharacterView>, card: CharacterView)
    requires
        !processed(card.name).contains('★'),
        !contains(processed(card.name), dots()),
        !processed(card.series).contains('★'),
        !contains(processed(card.series), dots()),
    ensures
        update(update(entries, card).0, card).0.len() == update(entries, card).0.len(),
{
    let (qn, dn) = update_key(card.name);
    let (qs, ds) = update_key(card.series);
    let after = update(entries, card).0;
    lemma_search_from(entries, qn, dn, qs, ds, 0);
    match search(entries, qn, dn, qs, ds) {
        Probe::Hit(i) => {
            let e = CharacterView { wl: card.wl, ..entries[i as int] };
            assert(after == entries.update(i as int, e));
            assert(after[i as int].name == entries[i as int].name);
            assert(after[i as int].series == entries[i as int].series);
            assert forall|j: int| 0 <= j < i implies entry_matches(qn, dn, qs, ds, #[trigger] after[j])
                == Some(false) by {
                assert(after[j] == entries[j]);
            }
            lemma_search_hit(after, qn, dn, qs, ds, i, 0);
        },
        Probe::Miss => {
            if !dn && !ds {
                let e = CharacterView { name: qn, series: qs, ..card };
                assert(after == entries.push(e));
                lemma_sub_find_self(qn);
                lemma_sub_find_self(qs);
                assert(after[entries.len() as int] == e);
                assert forall|j: int|
                    0 <= j < entries.len() implies entry_matches(qn, dn, qs, ds, #[trigger] after[j])
                    == Some(false) by {
                    assert(after[j] == entries[j]);
                }
                lemma_search_hit(after, qn, dn, qs, ds, entries.len(), 0);
            }
        },
        Probe::Fault => {},
    }
}

/// The cards known to the wishlist analysis, searched by name and series.
pub struct CardIndex {
    characters: Vec<Character>,
}

impl View for CardIndex {
    type V = Seq<CharacterView>;

    closed spec fn view(&self) -> Seq<CharacterView> {
        self.characters@.map_values(|c: Character| c@)
    }
}

impl CardIndex {
    pub fn new() -> (r: CardIndex)
        ensures
            r@ == Seq::<CharacterView>::empty(),
    {
        let r = CardIndex { characters: Vec::new() };
        assert(r@ =~= Seq::<CharacterView>::empty());
        r
    }

    /// The number of stored cards.
    pub fn len(&self) -> (n: usize)
        ensures
            n == self@.len(),
    {
        self.characters.len()
    }

    /// Adds a card loaded from the database, in its stored form.
    pub fn load(&mut self, c: Character)
        ensures
            final(self)@ == old(self)@.push(stored_form(c@)),
    {
        let series = chars_of(c.series.as_str());
        let no_bang = remove_char_chars(&series, '!');
        let empty: Vec<char> = Vec::new();
        let colon = vec![':'];
        let cleaned = replace_chars(&no_bang, &colon, &empty);
        assert(empty@ =~= seq![]);
        assert(colon@ =~= seq![':']);
        let stored = Character { name: c.name, series: string_of(&cleaned), gen: c.gen, wl: c.wl };
        let ghost before = self.characters@;
        self.characters.push(stored);
        assert(self.characters@ =~= before.push(stored));
        assert(self@ =~= old(self)@.push(stored_form(c@)));
    }

    fn search_chars(
        &self,
        qname: &Vec<char>,
        dot_name: bool,
        qseries: &Vec<char>,
        dot_series: bool,
    ) -> (r: Result<Option<usize>, CardError>)
        ensures
            match r {
                Ok(Some(i)) => search(self@, qname@, dot_name, qseries@, dot_series) == Probe::Hit(i as nat)
                    && i < self@.len(),
                Ok(None) => search(self@, qname@, dot_name, qseries@, dot_series) == Probe::Miss,
                Err(e) => search(self@, qname@, dot_name, qseries@, dot_series) == Probe::Fault
                    && e == CardError::CharBoundary,
            },
    {
        let mut i: usize = 0;
        proof {
            lemma_search_from(self@, qname@, dot_name, qseries@, dot_series, 0);
        }
        while i < self.characters.len()
            invariant
                i <= self@.len(),
                self@.len() == self.characters@.len(),
                search(self@, qname@, dot_name, qseries@, dot_series) == search_from(
                    self@,
                    qname@,
                    dot_name,
                    qseries@,
                    dot_series,
                    i as nat,
                ),
            decreases self@.len() - i,
        {
            let e = &self.characters[i];
            assert(self@[i as int] == e@);
            let name = chars_of(e.name.as_str());
            let m = sub_find_chars(qname, &name, dot_name)?;
            if m {
                let series = chars_of(e.series.as_str());
                let ms = sub_find_chars(qseries, &series, dot_series)?;
                if ms {
                    return Ok(Some(i));
                }
            }
            i = i + 1;
        }
        Ok(None)
    }

    proof fn lemma_view(&self, i: int)
        requires
            0 <= i < self.characters@.len(),
        ensures
            self@.len() == self.characters@.len(),
            self@[i] == self.characters@[i]@,
    {
    }

    /// Looks `card` up: the card with the wishlist count of the first stored card that
    /// matches its name and series, or the card unchanged when none does.
    pub fn find_card(&self, card: &Character) -> (r: Result<Character, CardError>)
        ensures
            match r {
                Ok(c) => lookup(self@, card@) == Ok::<CharacterView, CardError>(c@),
                Err(e) => lookup(self@, card@) == Err::<CharacterView, CardError>(e),
            },
    {
        let name = repair_dots_chars(&chars_of(card.name.as_str()))?;
        let series = repair_dots_chars(&chars_of(card.series.as_str()))?;
        let three = dots_chars();
        let dot_name = ends_with_chars(&name, &three);
        let dot_series = ends_with_chars(&series, &three);
        let qname = process_string(&name);
        let qseries = process_string(&series);
        match self.search_chars(&qname, dot_name, &qseries, dot_series)? {
            Some(i) => {
                proof {
                    self.lemma_view(i as int);
                }
                let mut c = card.duplicate();
                c.wl = self.characters[i].wl;
                Ok(c)
            },
            None => Ok(card.duplicate()),
        }
    }

    /// Looks up each of `cards` in turn (see [`CardIndex::find_card`]); the first lookup that
    /// fails makes the whole fail.
    pub fn find_cards(&self, cards: &Vec<Character>) -> (r: Result<Vec<Character>, CardError>)
        ensures
            match r {
                Ok(v) => v@.len() == cards@.len() && forall|i: int|
                    0 <= i < cards@.len() ==> lookup(self@, #[trigger] cards@[i]@)
                        == Ok::<CharacterView, CardError>(v@[i]@),
                Err(e) => exists|k: int|
                    0 <= k < cards@.len() && lookup(self@, #[trigger] cards@[k]@)
                        == Err::<CharacterView, CardError>(e) && forall|j: int|
                        0 <= j < k ==> lookup(self@, #[trigger] cards@[j]@) is Ok,
            },
    {
        let mut v: Vec<Character> = Vec::new();
        let mut i: usize = 0;
        while i < cards.len()
            invariant
                i <= cards@.len(),
                v@.len() == i,
                forall|j: int|
                    0 <= j < i ==> lookup(self@, #[trigger] cards@[j]@) == Ok::<CharacterView, CardError>(
                        v@[j]@,
                    ),
            decreases cards@.len() - i,
        {
            match self.find_card(&cards[i]) {
                Ok(c) => v.push(c),
                Err(e) => {
                    assert(forall|j: int| 0 <= j < i ==> lookup(self@, #[trigger] cards@[j]@) is Ok);
                    return Err(e);
                },
            }
            i = i + 1;
        }
        Ok(v)
    }

    /// Updates the wishlist count of the first stored card that matches `card`, or adds `card`
    /// in its compared form when none matches and it is not truncated. Returns the record to
    /// write back, if any.
    pub fn update_card(&mut self, card: Character) -> (r: Result<Option<Character>, CardError>)
        ensures
            final(self)@ == update(old(self)@, card@).0,
            match r {
                Ok(Some(c)) => update(old(self)@, card@).1 == Ok::<Option<CharacterView>, CardError>(Some(c@)),
                Ok(None) => update(old(self)@, card@).1 == Ok::<Option<CharacterView>, CardError>(None),
                Err(e) => update(old(self)@, card@).1 == Err::<Option<CharacterView>, CardError>(e),
            },
    {
        let name = chars_of(card.name.as_str());
        let series = chars_of(card.series.as_str());
        let three = dots_chars();
        let dot_name = ends_with_chars(&name, &three);
        let dot_series = ends_with_chars(&series, &three);
        let qname = process_string(&name);
        let qseries = process_string(&series);
        match self.search_chars(&qname, dot_name, &qseries, dot_series)? {
            Some(i) => {
                proof {
                    self.lemma_view(i as int);
                }
                let ghost before = self.characters@;
                let old_entry = &self.characters[i];
                let updated = Character {
                    name: old_entry.name.clone(),
                    series: old_entry.series.clone(),
                    gen: old_entry.gen,
                    wl: card.wl,
                };
                let written = updated.duplicate();
                self.characters.set(i, updated);
                assert(self@ =~= old(self)@.update(i as int, written@));
                Ok(Some(written))
            },
            None => {
                if !dot_name && !dot_series {
                    let added = Character {
                        name: string_of(&qname),
                        series: string_of(&qseries),
                        gen: card.gen,
                        wl: card.wl,
                    };
                    let written = added.duplicate();
                    let ghost before = self.characters@;
                    self.characters.push(added);
                    assert(self.characters@ =~= before.push(added));
                    assert(self@ =~= old(self)@.push(written@));
                    Ok(Some(written))
                } else {
                    Ok(None)
                }
            },
        }
    }
}

} // verus!
