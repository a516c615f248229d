//! The n-gram generator: splitting cleaned text into words and sliding a
//! window of `k` consecutive words across them.
//!
//! Windows are rejoined with a single space and deduplicated by exact
//! equality, keeping the order of first occurrence.

use vstd::prelude::*;
use vstd::string::StrSliceExecFns;
use vstd::string::StringExecFns;
use crate::text::push_char;

verus! {

/// State of a left-to-right split on spaces: the completed words so far and
/// the (possibly empty) word being accumulated.
pub open spec fn split_state(s: Seq<char>) -> (Seq<Seq<char>>, Seq<char>)
    decreases s.len(),
{
    if s.len() == 0 {
        (Seq::empty(), Seq::empty())
    } else {
        let prev = split_state(s.drop_last());
        if s.last() == ' ' {
            if prev.1.len() == 0 {
                (prev.0, Seq::empty())
            } else {
                (prev.0.push(prev.1), Seq::empty())
            }
        } else {
            (prev.0, prev.1.push(s.last()))
        }
    }
}

/// The words of a text: the maximal runs of non-space characters.
pub open spec fn words_spec(s: Seq<char>) -> Seq<Seq<char>> {
    let state = split_state(s);
    if state.1.len() == 0 {
        state.0
    } else {
        state.0.push(state.1)
    }
}

/// Words rejoined with a single space between consecutive words.
pub open spec fn join_words(ws: Seq<Seq<char>>) -> Seq<char>
    decreases ws.len(),
{
    if ws.len() == 0 {
        Seq::empty()
    } else if ws.len() == 1 {
        ws[0]
    } else {
        join_words(ws.drop_last()) + seq![' '] + ws.last()
    }
}

/// How many windows of `k` consecutive words a text of `len` words has.
pub open spec fn window_count(len: nat, k: nat) -> nat {
    if len < k {
        0
    } else {
        (len - k + 1) as nat
    }
}

/// All windows of `k` consecutive words, each rejoined with single spaces,
/// in order of position.
pub open spec fn windows_spec(ws: Seq<Seq<char>>, k: nat) -> Seq<Seq<char>> {
    Seq::new(window_count(ws.len(), k), |i: int| join_words(ws.subrange(i, i + k)))
}

/// The sequence with later repetitions removed: each element appears once,
/// at the position of its first occurrence.
pub open spec fn dedup_first(s: Seq<Seq<char>>) -> Seq<Seq<char>>
    decreases s.len(),
{
    if s.len() == 0 {
        Seq::empty()
    } else {
        let d = dedup_first(s.drop_last());
        if d.contains(s.last()) {
            d
        } else {
            d.push(s.last())
        }
    }
}

/// The unique windows of `k` consecutive words, in order of first occurrence.
pub open spec fn ngrams_spec(ws: Seq<Seq<char>>, k: nat) -> Seq<Seq<char>> {
    dedup_first(windows_spec(ws, k))
}

/// Deduplication keeps exactly the elements of the original sequence.
pub proof fn lemma_dedup_first_contains(s: Seq<Seq<char>>, x: Seq<char>)
    ensures
        dedup_first(s).contains(x) <==> s.contains(x),
    decreases s.len(),
{
    if s.len() > 0 {
        let sp = s.drop_last();
        lemma_dedup_first_contains(sp, x);
        let d = dedup_first(sp);
        let ds = dedup_first(s);
        assert(s.contains(x) <==> (sp.contains(x) || s.last() == x)) by {
            if s.contains(x) {
                let i = choose|i: int| 0 <= i < s.len() && s[i] == x;
                if i < s.len() - 1 {
                    assert(sp[i] == x);
                    assert(sp.contains(x));
                }
            }
            if sp.contains(x) {
                let i = choose|i: int| 0 <= i < sp.len() && sp[i] == x;
                assert(s[i] == x);
            }
            if s.last() == x {
                assert(s[s.len() - 1] == x);
            }
        }
        if !d.contains(s.last()) {
            assert(ds.contains(x) <==> (d.contains(x) || s.last() == x)) by {
                if d.contains(x) {
                    let i = choose|i: int| 0 <= i < d.len() && d[i] == x;
                    assert(ds[i] == x);
                }
                if s.last() == x {
                    assert(ds[ds.len() - 1] == x);
                }
                if ds.contains(x) {
                    let i = choose|i: int| 0 <= i < ds.len() && ds[i] == x;
                    if i < ds.len() - 1 {
                        assert(d[i] == x);
                        assert(d.contains(x));
                    }
                }
            }
        }
    }
}

/// Deduplication leaves no element twice.
pub proof fn lemma_dedup_first_no_dups(s: Seq<Seq<char>>)
    ensures
        forall|i: int, j: int|
            0 <= i < j < dedup_first(s).len() ==> dedup_first(s)[i] != dedup_first(s)[j],
    decreases s.len(),
{
    if s.len() > 0 {
        lemma_dedup_first_no_dups(s.drop_last());
        let d = dedup_first(s.drop_last());
        if !d.contains(s.last()) {
            assert forall|i: int, j: int|
                0 <= i < j < dedup_first(s).len() implies dedup_first(s)[i] != dedup_first(
                s,
            )[j] by {
                if j < d.len() {
                } else {
                    assert(d.contains(d[i]));
                }
            }
        }
    }
}

/// Deduplication counts exactly the distinct elements: its length is the
/// cardinality of the set of elements.
pub proof fn lemma_dedup_first_len_is_distinct_count(s: Seq<Seq<char>>)
    ensures
        dedup_first(s).len() == s.to_set().len(),
{
    let d = dedup_first(s);
    lemma_dedup_first_no_dups(s);
    assert(d.no_duplicates());
    d.unique_seq_to_set();
    assert(d.to_set() =~= s.to_set()) by {
        assert forall|x: Seq<char>| #[trigger] d.to_set().contains(x) implies s.to_set().contains(
            x,
        ) by {
            lemma_dedup_first_contains(s, x);
        }
        assert forall|x: Seq<char>| #[trigger] s.to_set().contains(x) implies d.to_set().contains(
            x,
        ) by {
            lemma_dedup_first_contains(s, x);
        }
    }
}

/// The view of each string in a vector.
pub open spec fn string_views(v: Seq<String>) -> Seq<Seq<char>> {
    v.map_values(|w: String| w@)
}

/// A text with no space in it.
pub open spec fn no_space(w: Seq<char>) -> bool {
    forall|j: int| 0 <= j < w.len() ==> w[j] != ' '
}

/// Words as the splitter produces them: each nonempty and space-free.
pub open spec fn good_words(ws: Seq<Seq<char>>) -> bool {
    forall|i: int| 0 <= i < ws.len() ==> (#[trigger] ws[i]).len() > 0 && no_space(ws[i])
}

/// The split state only ever holds nonempty, space-free completed words and
/// a space-free current word.
proof fn lemma_split_state_shape(s: Seq<char>)
    ensures
        good_words(split_state(s).0),
        no_space(split_state(s).1),
    decreases s.len(),
{
    if s.len() > 0 {
        lemma_split_state_shape(s.drop_last());
        let prev = split_state(s.drop_last());
        if s.last() == ' ' && prev.1.len() != 0 {
            assert forall|i: int| 0 <= i < split_state(s).0.len() implies (
            #[trigger] split_state(s).0[i]).len() > 0 && no_space(split_state(s).0[i]) by {
                if i < prev.0.len() {
                    assert(prev.0[i] == split_state(s).0[i]);
                }
            }
        }
    }
}

/// Every word the splitter yields is nonempty and space-free.
pub proof fn lemma_words_spec_shape(s: Seq<char>)
    ensures
        good_words(words_spec(s)),
{
    lemma_split_state_shape(s);
    let state = split_state(s);
    if state.1.len() != 0 {
        assert forall|i: int| 0 <= i < words_spec(s).len() implies (
        #[trigger] words_spec(s)[i]).len() > 0 && no_space(words_spec(s)[i]) by {
            if i < state.0.len() {
                assert(state.0[i] == words_spec(s)[i]);
            }
        }
    }
}

/// Splitting a space-free text leaves it as one accumulating word.
proof fn lemma_split_state_no_space(w: Seq<char>)
    requires
        no_space(w),
    ensures
        split_state(w) == (Seq::<Seq<char>>::empty(), w),
    decreases w.len(),
{
    if w.len() > 0 {
        assert(no_space(w.drop_last()));
        lemma_split_state_no_space(w.drop_last());
        assert(w.drop_last().push(w.last()) =~= w);
    }
}

/// A trailing space completes the current word: the state becomes exactly
/// the words of the text, with nothing accumulating.
proof fn lemma_split_state_close(s: Seq<char>)
    ensures
        split_state(s + seq![' ']) == (words_spec(s), Seq::<char>::empty()),
{
    assert((s + seq![' ']).drop_last() =~= s);
    assert((s + seq![' ']).last() == ' ');
}

/// Appending a space-free text extends the accumulating word.
proof fn lemma_split_state_append(s: Seq<char>, w: Seq<char>)
    requires
        no_space(w),
    ensures
        split_state(s + w) == (split_state(s).0, split_state(s).1 + w),
    decreases w.len(),
{
    if w.len() == 0 {
        assert(s + w =~= s);
        assert(split_state(s).1 + w =~= split_state(s).1);
    } else {
        assert(no_space(w.drop_last()));
        lemma_split_state_append(s, w.drop_last());
        assert((s + w).drop_last() =~= s + w.drop_last());
        assert((s + w).last() == w.last());
        assert(w.last() != ' ') by {
            assert(w[w.len() - 1] != ' ');
        }
        assert(split_state(s).1 + w =~= (split_state(s).1 + w.drop_last()).push(w.last()));
    }
}

/// Splitting rejoined words gives back exactly the words: joining with single
/// spaces and splitting on spaces are inverse for nonempty, space-free words.
pub proof fn lemma_words_of_join(ws: Seq<Seq<char>>)
    requires
        good_words(ws),
    ensures
        words_spec(join_words(ws)) == ws,
    decreases ws.len(),
{
    if ws.len() == 0 {
        assert(words_spec(join_words(ws)) =~= ws);
    } else if ws.len() == 1 {
        assert(ws[0].len() > 0 && no_space(ws[0]));
        lemma_split_state_no_space(ws[0]);
        assert(words_spec(ws[0]) =~= Seq::<Seq<char>>::empty().push(ws[0]));
        assert(words_spec(join_words(ws)) =~= ws);
    } else {
        assert(good_words(ws.drop_last())) by {
            assert(forall|i: int|
                0 <= i < ws.drop_last().len() ==> ws.drop_last()[i] == ws[i]);
        }
        lemma_words_of_join(ws.drop_last());
        let prefix = join_words(ws.drop_last());
        let w = ws.last();
        assert(w.len() > 0 && no_space(w)) by {
            assert(ws[ws.len() - 1] == w);
        }
        lemma_split_state_close(prefix);
        lemma_split_state_append(prefix + seq![' '], w);
        assert(join_words(ws) =~= (prefix + seq![' ']) + w);
        assert(split_state(join_words(ws)) == (words_spec(prefix), Seq::<char>::empty() + w));
        assert(Seq::<char>::empty() + w =~= w);
        assert(words_spec(join_words(ws)) =~= ws.drop_last().push(w));
        assert(ws.drop_last().push(w) =~= ws);
    }
}

/// Every n-gram window consists of exactly `k` words: rejoining `k` words
/// and splitting again gives the `k` words back.
pub proof fn lemma_ngram_window_width(ws: Seq<Seq<char>>, k: nat)
    requires
        good_words(ws),
        k >= 1,
    ensures
        forall|i: int|
            0 <= i < ngrams_spec(ws, k).len() ==> words_spec(
                #[trigger] ngrams_spec(ws, k)[i],
            ).len() == k,
{
    let all = windows_spec(ws, k);
    assert forall|j: int| 0 <= j < all.len() implies words_spec(#[trigger] all[j]).len() == k by {
        let sub = ws.subrange(j, j + k);
        assert(good_words(sub)) by {
            assert(forall|p: int| 0 <= p < sub.len() ==> sub[p] == ws[j + p]);
        }
        lemma_words_of_join(sub);
    }
    assert forall|i: int| 0 <= i < ngrams_spec(ws, k).len() implies words_spec(
        #[trigger] ngrams_spec(ws, k)[i],
    ).len() == k by {
        let d = ngrams_spec(ws, k);
        assert(d.contains(d[i]));
        lemma_dedup_first_contains(all, d[i]);
        let j = choose|j: int| 0 <= j < all.len() && all[j] == d[i];
        assert(words_spec(all[j]).len() == k);
    }
}

/// Splits a text on spaces into its words.
///
/// On cleaned text (see [`crate::text`]) the only whitespace left is the
/// plain space, so this is exactly a whitespace split.
pub fn words(s: &str) -> (r: Vec<String>)
    ensures
        string_views(r@) == words_spec(s@),
{
    let n = s.unicode_len();
    let mut ws: Vec<String> = Vec::new();
    let mut cur = String::new();
    let mut i: usize = 0;
    while i < n
        invariant
            n == s@.len(),
            i <= n,
            string_views(ws@) =~= split_state(s@.take(i as int)).0,
            cur@ =~= split_state(s@.take(i as int)).1,
        decreases n - i,
    {
        let c = s.get_char(i);
        proof {
            assert(s@.take(i + 1).drop_last() =~= s@.take(i as int));
            assert(s@.take(i + 1).last() == s@[i as int]);
        }
        if c == ' ' {
            if !cur.as_str().is_empty() {
                let ghost old_ws = string_views(ws@);
                let ghost old_cur = cur@;
                ws.push(cur);
                cur = String::new();
                proof {
                    assert(string_views(ws@) =~= old_ws.push(old_cur));
                }
            }
        } else {
            push_char(&mut cur, c);
        }
        i = i + 1;
    }
    proof {
        assert(s@.take(n as int) =~= s@);
    }
    if !cur.as_str().is_empty() {
        let ghost old_ws = string_views(ws@);
        let ghost old_cur = cur@;
        ws.push(cur);
        proof {
            assert(string_views(ws@) =~= old_ws.push(old_cur));
        }
    }
    ws
}

/// Whether some string in the vector equals the given one.
fn contains_string(v: &Vec<String>, x: &String) -> (r: bool)
    ensures
        r == string_views(v@).contains(x@),
{
    let mut i: usize = 0;
    while i < v.len()
        invariant
            i <= v@.len(),
            forall|j: int| 0 <= j < i ==> string_views(v@)[j] != x@,
        decreases v@.len() - i,
    {
        if v[i] == *x {
            assert(string_views(v@)[i as int] == x@);
            return true;
        }
        i = i + 1;
    }
    false
}

/// The unique windows of `k` consecutive words, each rejoined with a single
/// space, in order of first occurrence. A text with fewer than `k` words has
/// no windows.
pub fn ngrams(ws: &Vec<String>, k: usize) -> (r: Vec<String>)
    requires
        1 <= k,
    ensures
        string_views(r@) == ngrams_spec(string_views(ws@), k as nat),
        ws@.len() < k ==> r@.len() == 0,
{
    let ghost wsv = string_views(ws@);
    let mut r: Vec<String> = Vec::new();
    if ws.len() < k {
        assert(windows_spec(wsv, k as nat) =~= Seq::<Seq<char>>::empty());
        assert(string_views(r@) =~= ngrams_spec(wsv, k as nat));
        return r;
    }
    let len = ws.len();
    let count = len - k + 1;
    let ghost all = windows_spec(wsv, k as nat);
    let mut i: usize = 0;
    while i < count
        invariant
            1 <= k,
            count == window_count(wsv.len(), k as nat),
            len == ws@.len(),
            count + k == len + 1,
            wsv == string_views(ws@),
            all == windows_spec(wsv, k as nat),
            i <= count,
            string_views(r@) =~= dedup_first(all.take(i as int)),
        decreases count - i,
    {
        let mut w = String::new();
        let mut j: usize = 0;
        while j < k
            invariant
                j <= k,
                i < count,
                len == ws@.len(),
                count + k == len + 1,
                wsv == string_views(ws@),
                w@ =~= join_words(wsv.subrange(i as int, i + j)),
            decreases k - j,
        {
            proof {
                assert(wsv.subrange(i as int, i + j + 1).drop_last() =~= wsv.subrange(
                    i as int,
                    i + j,
                ));
                assert(wsv.subrange(i as int, i + j + 1).last() == wsv[i + j]);
            }
            if j > 0 {
                push_char(&mut w, ' ');
            }
            w.append(ws[i + j].as_str());
            j = j + 1;
        }
        assert(w@ == all[i as int]);
        proof {
            assert(all.take(i + 1).drop_last() =~= all.take(i as int));
            assert(all.take(i + 1).last() == all[i as int]);
        }
        let dup = contains_string(&r, &w);
        if !dup {
            let ghost old_r = string_views(r@);
            r.push(w);
            proof {
                assert(string_views(r@) =~= old_r.push(w@));
            }
        }
        i = i + 1;
    }
    proof {
        assert(all.take(count as int) =~= all);
    }
    r
}

} // verus!
