//! The normalizer: cleaning of raw text before matching.
//!
//! Cleaning replaces every character that is not kept by a single space,
//! uppercases ASCII letters, and trims spaces from both ends. Kept characters
//! are the ASCII digits and letters, and the dash, which matters in
//! abbreviations and hyphenated medical terms. Alphanumeric means ASCII
//! here: a non-ASCII letter counts as a symbol and becomes a space.
//!
//! Search terms and column text go through this same normalizer, so a dashed
//! term matches its own occurrence in a text exactly.

use vstd::prelude::*;

verus! {

/// An ASCII digit or letter.
pub open spec fn is_ascii_alnum(c: char) -> bool {
    (('0' as int) <= c as int && c as int <= ('9' as int)) || (('A' as int) <= c as int && c as int
        <= ('Z' as int)) || (('a' as int) <= c as int && c as int <= ('z' as int))
}

/// The uppercase form of an ASCII letter; any other character is unchanged.
pub open spec fn upper_char(c: char) -> char {
    if ('a' as int) <= c as int && c as int <= ('z' as int) {
        ((c as int) - 32) as char
    } else {
        c
    }
}

/// A character that survives cleaning: an ASCII digit or letter, or the dash.
pub open spec fn is_kept(c: char) -> bool {
    is_ascii_alnum(c) || c == '-'
}

/// One character of the cleaned text: a kept character is uppercased,
/// every other character becomes a space.
pub open spec fn mask_char(c: char) -> char {
    if is_kept(c) {
        upper_char(c)
    } else {
        ' '
    }
}

/// The whole text masked character by character.
pub open spec fn mask_text(s: Seq<char>) -> Seq<char> {
    Seq::new(s.len(), |i: int| mask_char(s[i]))
}

/// The number of spaces at the start of the text.
pub open spec fn leading_spaces(s: Seq<char>) -> nat
    decreases s.len(),
{
    if s.len() == 0 {
        0
    } else if s.first() != ' ' {
        0
    } else {
        1 + leading_spaces(s.drop_first())
    }
}

/// The number of spaces at the end of the text.
pub open spec fn trailing_spaces(s: Seq<char>) -> nat
    decreases s.len(),
{
    if s.len() == 0 {
        0
    } else if s.last() != ' ' {
        0
    } else {
        1 + trailing_spaces(s.drop_last())
    }
}

/// The text without its leading and trailing spaces.
pub open spec fn trim_spaces(s: Seq<char>) -> Seq<char> {
    if leading_spaces(s) == s.len() {
        Seq::empty()
    } else {
        s.subrange(leading_spaces(s) as int, s.len() - trailing_spaces(s))
    }
}

/// The cleaned text: every character that is not an ASCII digit, an ASCII
/// letter or a dash becomes a single space; the result is trimmed and
/// uppercased.
pub open spec fn clean_text_spec(s: Seq<char>) -> Seq<char> {
    trim_spaces(mask_text(s))
}

/// Every index below `leading_spaces` holds a space, and the first index at
/// or past it (if any) does not.
proof fn lemma_leading_spaces_shape(s: Seq<char>)
    ensures
        leading_spaces(s) <= s.len(),
        forall|j: int| 0 <= j < leading_spaces(s) ==> s[j] == ' ',
        leading_spaces(s) < s.len() ==> s[leading_spaces(s) as int] != ' ',
    decreases s.len(),
{
    if s.len() > 0 && s.first() == ' ' {
        lemma_leading_spaces_shape(s.drop_first());
        assert forall|j: int| 0 <= j < leading_spaces(s) implies s[j] == ' ' by {
            if j > 0 {
                assert(s.drop_first()[j - 1] == s[j]);
            }
        }
    }
}

/// The count of leading spaces is pinned by any index that splits the text
/// into a space prefix followed by a non-space (or the end).
proof fn lemma_leading_spaces_from_index(s: Seq<char>, i: int)
    requires
        0 <= i <= s.len(),
        forall|j: int| 0 <= j < i ==> s[j] == ' ',
        i < s.len() ==> s[i] != ' ',
    ensures
        leading_spaces(s) == i,
    decreases s.len(),
{
    if s.len() > 0 && s.first() == ' ' {
        assert(i > 0);
        lemma_leading_spaces_from_index(s.drop_first(), i - 1);
    }
}

/// Mirror of `lemma_leading_spaces_shape` for the end of the text.
proof fn lemma_trailing_spaces_shape(s: Seq<char>)
    ensures
        trailing_spaces(s) <= s.len(),
        forall|j: int| s.len() - trailing_spaces(s) <= j < s.len() ==> s[j] == ' ',
        trailing_spaces(s) < s.len() ==> s[s.len() - trailing_spaces(s) - 1] != ' ',
    decreases s.len(),
{
    if s.len() > 0 && s.last() == ' ' {
        lemma_trailing_spaces_shape(s.drop_last());
        assert forall|j: int| s.len() - trailing_spaces(s) <= j < s.len() implies s[j] == ' ' by {
            if j < s.len() - 1 {
                assert(s.drop_last()[j] == s[j]);
            }
        }
    }
}

/// Mirror of `lemma_leading_spaces_from_index` for the end of the text.
proof fn lemma_trailing_spaces_from_index(s: Seq<char>, i: int)
    requires
        0 <= i <= s.len(),
        forall|j: int| i <= j < s.len() ==> s[j] == ' ',
        i > 0 ==> s[i - 1] != ' ',
    ensures
        trailing_spaces(s) == s.len() - i,
    decreases s.len(),
{
    if s.len() > 0 && s.last() == ' ' {
        assert(i < s.len());
        lemma_trailing_spaces_from_index(s.drop_last(), i);
    }
}

/// Appends one character to a string.
///
/// Relies on `String::push`, which appends exactly the given character.
#[verifier::external_body]
pub(crate) fn push_char(s: &mut String, c: char)
    ensures
        final(s)@ == old(s)@.push(c),
{
    s.push(c);
}

/// The uppercase form of an ASCII letter, as executable code.
fn upper_char_exec(c: char) -> (r: char)
    ensures
        r == upper_char(c),
{
    let code = c as u32;
    if 97 <= code && code <= 122 {
        ((code - 32) as u8) as char
    } else {
        c
    }
}

/// Whether the character survives cleaning, as executable code.
fn is_kept_char(c: char) -> (r: bool)
    ensures
        r == is_kept(c),
{
    let code = c as u32;
    (48 <= code && code <= 57) || (65 <= code && code <= 90) || (97 <= code && code <= 122)
        || code == 45
}

/// Removes every character that is not an ASCII digit, an ASCII letter or a
/// dash, replacing it by a single space, then trims the ends and uppercases.
/// Deterministic and total: empty or all-punctuation input yields the empty
/// string.
pub fn clean_text(s: &str) -> (r: String)
    ensures
        r@ == clean_text_spec(s@),
{
    let n = s.unicode_len();
    let ghost m = mask_text(s@);
    let mut masked: Vec<char> = Vec::new();
    let mut i: usize = 0;
    while i < n
        invariant
            n == s@.len(),
            i <= n,
            masked@ =~= m.take(i as int),
            m == mask_text(s@),
        decreases n - i,
    {
        let c = s.get_char(i);
        let kept = is_kept_char(c);
        if kept {
            masked.push(upper_char_exec(c));
        } else {
            masked.push(' ');
        }
        assert(m.take(i + 1) =~= m.take(i as int).push(m[i as int]));
        i = i + 1;
    }
    assert(masked@ =~= m);

    let mut start: usize = 0;
    while start < n && masked[start] == ' '
        invariant
            n == m.len(),
            masked@ =~= m,
            start <= n,
            forall|j: int| 0 <= j < start ==> m[j] == ' ',
        decreases n - start,
    {
        start = start + 1;
    }
    proof {
        lemma_leading_spaces_from_index(m, start as int);
    }
    if start == n {
        assert(trim_spaces(m) =~= Seq::<char>::empty());
        return String::new();
    }

    let mut end: usize = n;
    while end > start && masked[end - 1] == ' '
        invariant
            n == m.len(),
            masked@ =~= m,
            start <= end <= n,
            forall|j: int| end <= j < n ==> m[j] == ' ',
        decreases end,
    {
        end = end - 1;
    }
    assert(m[start as int] != ' ');
    assert(end > start);
    proof {
        lemma_trailing_spaces_from_index(m, end as int);
    }

    let mut r = String::new();
    let mut k: usize = start;
    while k < end
        invariant
            n == m.len(),
            masked@ =~= m,
            start <= k <= end <= n,
            r@ =~= m.subrange(start as int, k as int),
        decreases end - k,
    {
        push_char(&mut r, masked[k]);
        assert(m.subrange(start as int, k + 1) =~= m.subrange(start as int, k as int).push(
            m[k as int],
        ));
        k = k + 1;
    }
    assert(r@ =~= trim_spaces(m));
    r
}

/// A punctuation character that [`remove_symbols`] deletes outright.
pub open spec fn is_deleted_symbol(c: char) -> bool {
    c == '(' || c == ')' || c == ',' || c == '"' || c == '.' || c == ';' || c == ':' || c == '!'
        || c == '*'
}

/// The text with the deleted punctuation characters dropped; everything else
/// is kept in place.
pub open spec fn remove_symbols_spec(s: Seq<char>) -> Seq<char>
    decreases s.len(),
{
    if s.len() == 0 {
        Seq::empty()
    } else {
        let rest = remove_symbols_spec(s.drop_last());
        if is_deleted_symbol(s.last()) {
            rest
        } else {
            rest.push(s.last())
        }
    }
}

/// Deletes a fixed set of punctuation characters from the text, keeping
/// everything else in place. An older normalization that drops punctuation
/// instead of replacing it by spaces.
pub fn remove_symbols(x: &str) -> (r: String)
    ensures
        r@ == remove_symbols_spec(x@),
{
    let n = x.unicode_len();
    let mut r = String::new();
    let mut i: usize = 0;
    while i < n
        invariant
            n == x@.len(),
            i <= n,
            r@ =~= remove_symbols_spec(x@.take(i as int)),
        decreases n - i,
    {
        proof {
            assert(x@.take(i + 1).drop_last() =~= x@.take(i as int));
            assert(x@.take(i + 1).last() == x@[i as int]);
        }
        let c = x.get_char(i);
        let code = c as u32;
        let deleted = code == 40 || code == 41 || code == 44 || code == 34 || code == 46 || code
            == 59 || code == 58 || code == 33 || code == 42;
        if !deleted {
            push_char(&mut r, c);
        }
        i = i + 1;
    }
    proof {
        assert(x@.take(n as int) =~= x@);
    }
    r
}

/// Uppercases ASCII letters, leaving every other character unchanged.
pub fn ascii_uppercase(s: &str) -> (r: String)
    ensures
        r@ == s@.map_values(|c: char| upper_char(c)),
{
    let n = s.unicode_len();
    let mut r = String::new();
    let mut i: usize = 0;
    while i < n
        invariant
            n == s@.len(),
            i <= n,
            r@ =~= s@.take(i as int).map_values(|c: char| upper_char(c)),
        decreases n - i,
    {
        let c = s.get_char(i);
        push_char(&mut r, upper_char_exec(c));
        proof {
            assert(s@.take(i + 1).map_values(|c: char| upper_char(c)) =~= s@.take(
                i as int,
            ).map_values(|c: char| upper_char(c)).push(upper_char(s@[i as int])));
        }
        i = i + 1;
    }
    proof {
        assert(s@.take(n as int) =~= s@);
    }
    r
}

/// The normalizer under its historical name: identical to [`clean_text`],
/// whose kept characters always included the dash.
pub fn remove_symbols_except_dash(s: &str) -> (r: String)
    ensures
        r@ == clean_text_spec(s@),
{
    clean_text(s)
}

/// Cleaning is idempotent: cleaning already-cleaned text changes nothing.
pub proof fn lemma_clean_idempotent(s: Seq<char>)
    ensures
        clean_text_spec(clean_text_spec(s)) == clean_text_spec(s),
{
    let m = mask_text(s);
    let t = trim_spaces(m);
    lemma_leading_spaces_shape(m);
    lemma_trailing_spaces_shape(m);
    assert forall|j: int| 0 <= j < t.len() implies mask_char(t[j]) == t[j] by {
        assert(t[j] == mask_char(s[leading_spaces(m) + j]));
    }
    assert(mask_text(t) =~= t);
    if t.len() > 0 {
        if leading_spaces(m) < m.len() {
            assert(t[0] == m[leading_spaces(m) as int]);
            assert(t[t.len() - 1] == m[m.len() - trailing_spaces(m) - 1]);
        }
        lemma_leading_spaces_from_index(t, 0);
        lemma_trailing_spaces_from_index(t, t.len() as int);
        assert(trim_spaces(t) =~= t);
    } else {
        assert(leading_spaces(t) == 0);
        assert(trim_spaces(t) =~= t);
    }
}

} // verus!
