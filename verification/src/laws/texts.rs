//! Cutting and comparing text.

use vstd::prelude::*;

use crate::text::{
    after, before, find, is_white, lemma_find, lemma_find_bounds, lemma_text_le_at, lemma_trim_end,
    lemma_trim_start, lemma_word_len, lines, occurs, occurs_at, splitn, strip_prefix, text_le,
    trim, words,
};

verus! {

/// Whether `s` is nothing but white space.
pub open spec fn blank(s: Seq<char>) -> bool {
    forall|i: int| 0 <= i < s.len() ==> is_white(#[trigger] s[i])
}

/// Trimming takes white space from both ends and nothing else.
pub proof fn trimming_takes_the_ends(front: Seq<char>, s: Seq<char>, back: Seq<char>)
    requires
        blank(front),
        blank(back),
        s.len() > 0 ==> !is_white(s[0]) && !is_white(s.last()),
    ensures
        trim(front + s + back) == s,
{
    let all = front + s + back;
    if s.len() == 0 {
        assert forall|i: int| 0 <= i < all.len() implies is_white(#[trigger] all[i]) by {
            if i < front.len() {
                assert(all[i] == front[i]);
            } else {
                assert(all[i] == back[i - front.len()]);
            }
        }
        lemma_trim_start(all, all.len() as int);
        assert(all.skip(all.len() as int) == Seq::<char>::empty());
        assert(s == Seq::<char>::empty());
    } else {
        assert forall|i: int| 0 <= i < front.len() implies is_white(#[trigger] all[i]) by {
            assert(all[i] == front[i]);
        }
        assert(all[front.len() as int] == s[0]);
        lemma_trim_start(all, front.len() as int);
        let rest = all.skip(front.len() as int);
        assert(rest == s + back);
        assert forall|i: int| s.len() <= i < rest.len() implies is_white(#[trigger] rest[i]) by {
            assert(rest[i] == back[i - s.len()]);
        }
        assert(rest[s.len() - 1] == s.last());
        lemma_trim_end(rest, s.len() as int);
        assert(rest.take(s.len() as int) == s);
    }
}

/// The pieces with `sep` between them.
pub open spec fn rejoined(pieces: Seq<Seq<char>>, sep: char) -> Seq<char>
    decreases pieces.len(),
{
    if pieces.len() == 0 {
        Seq::empty()
    } else if pieces.len() == 1 {
        pieces[0]
    } else {
        pieces[0].push(sep) + rejoined(pieces.skip(1), sep)
    }
}

/// Splitting into at most `n` pieces loses nothing: the pieces with the
/// separator between them are the text. It cuts at the first places there are:
/// no piece but the `n`th holds the separator.
pub proof fn splitting_loses_nothing(s: Seq<char>, n: nat, sep: char)
    requires
        n > 0,
    ensures
        1 <= splitn(s, n, sep).len() <= n,
        rejoined(splitn(s, n, sep), sep) == s,
        forall|i: int|
            0 <= i < splitn(s, n, sep).len() && i < n - 1 ==> !(#[trigger] splitn(
                s,
                n,
                sep,
            )[i]).contains(sep),
    decreases n,
{
    let all = splitn(s, n, sep);
    lemma_find_bounds(s, sep);
    if n == 1 || find(s, sep) >= s.len() {
        assert(all == seq![s]);
        assert(rejoined(all, sep) == s);
        if n > 1 && s.contains(sep) {
            let k = choose|k: int| 0 <= k < s.len() && s[k] == sep;
            assert(s[k] != sep);
        }
    } else {
        let head = before(s, sep);
        let tail = splitn(after(s, sep), (n - 1) as nat, sep);
        splitting_loses_nothing(after(s, sep), (n - 1) as nat, sep);
        assert(all == seq![head] + tail);
        assert(all.skip(1) == tail);
        assert(head.push(sep) + after(s, sep) == s);
        assert forall|i: int| 0 <= i < all.len() && i < n - 1 implies !(
        #[trigger] all[i]).contains(sep) by {
            if i == 0 {
                if head.contains(sep) {
                    let k = choose|k: int| 0 <= k < head.len() && head[k] == sep;
                    assert(s[k] != sep);
                }
            } else {
                assert(all[i] == tail[i - 1]);
            }
        }
    }
}

/// What stands before the first `c` is found, and all of a text without one.
pub proof fn the_first_field_is_found(key: Seq<char>, c: char, rest: Seq<char>)
    requires
        !key.contains(c),
    ensures
        before(key.push(c) + rest, c) == key,
        before(key, c) == key,
{
    let all = key.push(c) + rest;
    assert forall|j: int| 0 <= j < key.len() implies #[trigger] key[j] != c by {
        assert(key.contains(key[j]));
    }
    assert forall|j: int| 0 <= j < key.len() implies #[trigger] all[j] != c by {
        assert(all[j] == key[j]);
    }
    lemma_find(all, c, key.len() as int);
    lemma_find(key, c, key.len() as int);
    assert(before(all, c) == key);
    assert(before(key, c) == key);
}

/// A text is read line by line; a carriage return before the line break belongs
/// to the break.
pub proof fn lines_are_read_one_by_one(line: Seq<char>, rest: Seq<char>)
    requires
        !line.contains('\n'),
    ensures
        lines(Seq::empty()) == Seq::<Seq<char>>::empty(),
        line.len() > 0 ==> lines(line) == seq![line],
        line.len() > 0 && line.last() == '\r' ==> lines(line.push('\n') + rest) == seq![
            line.drop_last(),
        ] + lines(rest),
        line.len() == 0 || line.last() != '\r' ==> lines(line.push('\n') + rest) == seq![line]
            + lines(rest),
{
    let all = line.push('\n') + rest;
    assert forall|j: int| 0 <= j < line.len() implies #[trigger] line[j] != '\n' by {
        assert(line.contains(line[j]));
    }
    assert forall|j: int| 0 <= j < line.len() implies #[trigger] all[j] != '\n' by {
        assert(all[j] == line[j]);
    }
    lemma_find(all, '\n', line.len() as int);
    lemma_find(line, '\n', line.len() as int);
    assert(before(all, '\n') == line);
    assert(after(all, '\n') == rest);
}

/// White space separates words and is in none of them.
pub proof fn words_are_read_one_by_one(word: Seq<char>, rest: Seq<char>, space: char)
    requires
        word.len() > 0,
        forall|i: int| 0 <= i < word.len() ==> !is_white(#[trigger] word[i]),
        rest.len() > 0 ==> is_white(rest[0]),
        is_white(space),
    ensures
        words(Seq::empty()) == Seq::<Seq<char>>::empty(),
        words(seq![space] + rest) == words(rest),
        words(word + rest) == seq![word] + words(rest),
{
    let spaced = seq![space] + rest;
    assert(spaced.skip(1) == rest);
    assert(spaced[0] == space);
    let all = word + rest;
    assert forall|i: int| 0 <= i < word.len() implies !is_white(#[trigger] all[i]) by {
        assert(all[i] == word[i]);
    }
    assert(all[0] == word[0]);
    if rest.len() > 0 {
        assert(all[word.len() as int] == rest[0]);
    }
    lemma_word_len(all, word.len() as int);
    assert(all.take(word.len() as int) == word);
    assert(all.skip(word.len() as int) == rest);
}

/// A text occurs in another exactly if the other is made of something, that
/// text, and something.
pub proof fn occurring_is_standing_between(
    s: Seq<char>,
    front: Seq<char>,
    needle: Seq<char>,
    back: Seq<char>,
)
    ensures
        occurs(front + needle + back, needle),
        occurs(s, needle) ==> exists|a: Seq<char>, b: Seq<char>| s == #[trigger] (a + needle + b),
{
    let all = front + needle + back;
    let k = front.len() as int;
    assert(all.subrange(k, k + needle.len()) == needle);
    assert(occurs_at(all, needle, k));
    if occurs(s, needle) {
        let i = choose|i: int| occurs_at(s, needle, i);
        let a = s.take(i);
        let b = s.skip(i + needle.len());
        assert(s == a + needle + b) by {
            assert forall|j: int| 0 <= j < s.len() implies s[j] == (a + needle + b)[j] by {
                if i <= j < i + needle.len() {
                    assert(s.subrange(i, i + needle.len())[j - i] == s[j]);
                }
            }
        }
    }
}

/// A prefix is taken off exactly where it stands.
pub proof fn a_prefix_is_taken_off(s: Seq<char>, prefix: Seq<char>, rest: Seq<char>)
    ensures
        strip_prefix(prefix + rest, prefix) == Some(rest),
        strip_prefix(s, prefix) matches Some(t) ==> s == prefix + t,
{
    let all = prefix + rest;
    assert(all.subrange(0, prefix.len() as int) == prefix);
    assert(all.skip(prefix.len() as int) == rest);
    if strip_prefix(s, prefix) is Some {
        let t = strip_prefix(s, prefix)->0;
        let head = s.subrange(0, prefix.len() as int);
        assert(head == prefix);
        assert forall|j: int| 0 <= j < s.len() implies s[j] == (prefix + t)[j] by {
            if j < prefix.len() {
                assert(head[j] == s[j]);
            }
        }
        assert(s == prefix + t);
    }
}

/// Whether `a` and `b` first differ at `i`, where `a` has ended or has the
/// smaller code point.
pub open spec fn goes_first_at(a: Seq<char>, b: Seq<char>, i: int) -> bool {
    &&& 0 <= i <= a.len() && i <= b.len()
    &&& a.take(i) == b.take(i)
    &&& i == a.len() || (i < b.len() && (a[i] as int) < (b[i] as int))
}

/// Texts are in the order of dictionaries: one comes before another, or is the
/// same, exactly if it ends first or has the smaller code point where they first
/// differ.
pub proof fn texts_are_ordered_as_in_a_dictionary(a: Seq<char>, b: Seq<char>)
    ensures
        text_le(a, b) <==> exists|i: int| goes_first_at(a, b, i),
{
    let k = lemma_first_difference(a, b);
    lemma_text_le_at(a, b, k);
    if text_le(a, b) {
        assert(goes_first_at(a, b, k));
    }
    if exists|i: int| goes_first_at(a, b, i) {
        let i = choose|i: int| goes_first_at(a, b, i);
        assert forall|j: int| 0 <= j < i implies #[trigger] a[j] == b[j] by {
            assert(a.take(i)[j] == b.take(i)[j]);
        }
        lemma_text_le_at(a, b, i);
    }
}

proof fn lemma_first_difference(a: Seq<char>, b: Seq<char>) -> (k: int)
    ensures
        0 <= k <= a.len(),
        k <= b.len(),
        forall|j: int| 0 <= j < k ==> #[trigger] a[j] == b[j],
        a.take(k) == b.take(k),
        k < a.len() && k < b.len() ==> a[k] != b[k],
    decreases a.len(),
{
    if a.len() == 0 || b.len() == 0 || a[0] != b[0] {
        assert(a.take(0) == b.take(0));
        0
    } else {
        let k = lemma_first_difference(a.skip(1), b.skip(1));
        assert forall|j: int| 0 <= j < k + 1 implies #[trigger] a[j] == b[j] by {
            if j > 0 {
                assert(a.skip(1)[j - 1] == b.skip(1)[j - 1]);
            }
        }
        assert(a.take(k + 1) == b.take(k + 1));
        k + 1
    }
}

} // verus!
