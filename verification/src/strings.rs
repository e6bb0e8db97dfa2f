//! Texts as sequences of characters: the vocabulary of every other module's contracts,
//! and the functions that compute it.
pub mod laws;

use vstd::prelude::*;

verus! {

/// `String::push` appends one character to the end.
pub assume_specification[ std::string::String::push ](s: &mut std::string::String, c: char)
    ensures
        final(s)@ == old(s)@.push(c),
;

/// The characters of Unicode's `White_Space` property.
pub open spec fn white(c: char) -> bool {
    ||| '\u{9}' <= c <= '\u{d}'
    ||| c == '\u{20}'
    ||| c == '\u{85}'
    ||| c == '\u{a0}'
    ||| c == '\u{1680}'
    ||| '\u{2000}' <= c <= '\u{200a}'
    ||| c == '\u{2028}'
    ||| c == '\u{2029}'
    ||| c == '\u{202f}'
    ||| c == '\u{205f}'
    ||| c == '\u{3000}'
}

/// A text without its leading white space.
pub open spec fn trim_start_of(s: Seq<char>) -> Seq<char>
    decreases s.len(),
{
    if s.len() > 0 && white(s[0]) {
        trim_start_of(s.skip(1))
    } else {
        s
    }
}

/// A text without its trailing white space.
pub open spec fn trim_end_of(s: Seq<char>) -> Seq<char>
    decreases s.len(),
{
    if s.len() > 0 && white(s.last()) {
        trim_end_of(s.drop_last())
    } else {
        s
    }
}

/// A text without white space at either end.
pub open spec fn trim_of(s: Seq<char>) -> Seq<char> {
    trim_end_of(trim_start_of(s))
}

/// A text without the given character at its end.
pub open spec fn trim_end_char(s: Seq<char>, c: char) -> Seq<char>
    decreases s.len(),
{
    if s.len() > 0 && s.last() == c {
        trim_end_char(s.drop_last(), c)
    } else {
        s
    }
}

/// Whether a text holds nothing but white space.
pub open spec fn blank(s: Seq<char>) -> bool {
    forall|i: int| 0 <= i < s.len() ==> white(#[trigger] s[i])
}

/// The position of the first occurrence of a character, or the length of the text.
pub open spec fn index_of_char(s: Seq<char>, c: char) -> nat
    decreases s.len(),
{
    if s.len() == 0 || s[0] == c {
        0
    } else {
        1 + index_of_char(s.skip(1), c)
    }
}

/// The number of characters before the first white space.
pub open spec fn word_len(s: Seq<char>) -> nat
    decreases s.len(),
{
    if s.len() == 0 || white(s[0]) {
        0
    } else {
        1 + word_len(s.skip(1))
    }
}

/// The words of a text: its maximal runs of characters that are not white space.
pub open spec fn words_of(s: Seq<char>) -> Seq<Seq<char>>
    decreases s.len(),
{
    let t = trim_start_of(s);
    let n = word_len(t) as int;
    if t.len() == 0 {
        Seq::empty()
    } else {
        proof {
            lemma_trim_start_len(s);
            lemma_word_len_bound(t);
            lemma_trim_start_head(s);
        }
        seq![t.take(n)] + words_of(t.skip(n))
    }
}

/// The parts of a text between the occurrences of a separator; never empty.
pub open spec fn split_of(s: Seq<char>, sep: char) -> Seq<Seq<char>>
    decreases s.len(),
{
    let n = index_of_char(s, sep) as int;
    if n < s.len() {
        seq![s.take(n)] + split_of(s.skip(n + 1), sep)
    } else {
        seq![s]
    }
}

/// A line without the carriage return that ends it.
pub open spec fn without_cr(s: Seq<char>) -> Seq<char> {
    if s.len() > 0 && s.last() == '\r' {
        s.drop_last()
    } else {
        s
    }
}

/// The lines of a text: each ends before a line feed or before a carriage return and
/// line feed, and the last one may lack its line end.
pub open spec fn lines_of(s: Seq<char>) -> Seq<Seq<char>>
    decreases s.len(),
{
    let n = index_of_char(s, '\n') as int;
    if s.len() == 0 {
        Seq::empty()
    } else if n < s.len() {
        seq![without_cr(s.take(n))] + lines_of(s.skip(n + 1))
    } else {
        seq![s]
    }
}

/// The parts put one behind the other with a separator between neighbours.
pub open spec fn join_of(parts: Seq<Seq<char>>, sep: Seq<char>) -> Seq<char>
    decreases parts.len(),
{
    if parts.len() == 0 {
        Seq::empty()
    } else if parts.len() == 1 {
        parts[0]
    } else {
        join_of(parts.drop_last(), sep) + sep + parts.last()
    }
}

/// The views of a sequence of strings.
pub open spec fn views(parts: Seq<String>) -> Seq<Seq<char>> {
    parts.map_values(|p: String| p@)
}

/// Where a text occurs in another for the first time.
pub open spec fn position(s: Seq<char>, part: Seq<char>) -> Option<nat>
    decreases s.len(),
{
    if part.is_prefix_of(s) {
        Some(0)
    } else if s.len() == 0 {
        None
    } else {
        match position(s.skip(1), part) {
            Some(n) => Some(n + 1),
            None => None,
        }
    }
}

/// The first `max` characters.
pub open spec fn clip(s: Seq<char>, max: nat) -> Seq<char> {
    if s.len() <= max {
        s
    } else {
        s.take(max as int)
    }
}

/// Every occurrence of one character turned into another.
pub open spec fn replaced(s: Seq<char>, from: char, to: char) -> Seq<char> {
    s.map_values(|c: char| if c == from { to } else { c })
}

/// The decimal digit of a value below ten.
pub open spec fn digit_char(d: nat) -> char {
    (48 + d) as char
}

/// A number in decimal notation.
pub open spec fn decimal(n: nat) -> Seq<char>
    decreases n,
{
    if n < 10 {
        seq![digit_char(n)]
    } else {
        decimal(n / 10).push(digit_char(n % 10))
    }
}

/// The value a run of decimal digits stands for.
pub open spec fn decimal_value(s: Seq<char>) -> nat
    decreases s.len(),
{
    if s.len() == 0 {
        0
    } else {
        10 * decimal_value(s.drop_last()) + (s.last() as nat - 48) as nat
    }
}

/// Whether a character is a decimal digit of ASCII.
pub open spec fn is_digit(c: char) -> bool {
    '0' <= c <= '9'
}

/// A number in decimal notation is made of digits, and they stand for the number.
pub proof fn lemma_decimal(n: nat)
    ensures
        decimal(n).len() > 0,
        forall|i: int| 0 <= i < decimal(n).len() ==> is_digit(#[trigger] decimal(n)[i]),
        decimal_value(decimal(n)) == n,
    decreases n,
{
    reveal_with_fuel(decimal_value, 2);
    if n < 10 {
        assert(seq![digit_char(n)].drop_last() =~= Seq::empty());
    } else {
        lemma_decimal(n / 10);
        assert(decimal(n).drop_last() =~= decimal(n / 10));
    }
}

pub proof fn lemma_trim_start_len(s: Seq<char>)
    ensures
        trim_start_of(s).len() <= s.len(),
        trim_start_of(s) == s.skip(s.len() - trim_start_of(s).len()),
    decreases s.len(),
{
    if s.len() > 0 && white(s[0]) {
        lemma_trim_start_len(s.skip(1));
        let n = s.skip(1).len() - trim_start_of(s.skip(1)).len();
        assert(s.skip(1).skip(n) == s.skip(n + 1));
    } else {
        assert(s.skip(0) == s);
    }
}

pub proof fn lemma_trim_start_head(s: Seq<char>)
    ensures
        trim_start_of(s).len() > 0 ==> !white(trim_start_of(s)[0]),
    decreases s.len(),
{
    if s.len() > 0 && white(s[0]) {
        lemma_trim_start_head(s.skip(1));
    }
}

pub proof fn lemma_word_len_bound(s: Seq<char>)
    ensures
        word_len(s) <= s.len(),
        s.len() > 0 && !white(s[0]) ==> word_len(s) > 0,
        forall|i: int| 0 <= i < word_len(s) ==> !white(#[trigger] s[i]),
        word_len(s) < s.len() ==> white(s[word_len(s) as int]),
    decreases s.len(),
{
    if s.len() > 0 && !white(s[0]) {
        let t = s.skip(1);
        lemma_word_len_bound(t);
        assert forall|i: int| 0 <= i < word_len(s) implies !white(#[trigger] s[i]) by {
            if i > 0 {
                assert(t[i - 1] == s[i]);
            }
        }
        if word_len(s) < s.len() {
            assert(t[word_len(t) as int] == s[word_len(s) as int]);
        }
    }
}

pub proof fn lemma_index_of_char(s: Seq<char>, c: char)
    ensures
        index_of_char(s, c) <= s.len(),
        forall|i: int| 0 <= i < index_of_char(s, c) ==> #[trigger] s[i] != c,
        index_of_char(s, c) < s.len() ==> s[index_of_char(s, c) as int] == c,
    decreases s.len(),
{
    if s.len() > 0 && s[0] != c {
        let t = s.skip(1);
        lemma_index_of_char(t, c);
        assert forall|i: int| 0 <= i < index_of_char(s, c) implies #[trigger] s[i] != c by {
            if i > 0 {
                assert(t[i - 1] == s[i]);
            }
        }
        if index_of_char(s, c) < s.len() {
            assert(t[index_of_char(t, c) as int] == s[index_of_char(s, c) as int]);
        }
    }
}

/// A position before which the character does not occur, and at which it does or the text
/// ends, is the position of its first occurrence.
pub proof fn lemma_index_of_char_is(s: Seq<char>, c: char, n: int)
    requires
        0 <= n <= s.len(),
        forall|i: int| 0 <= i < n ==> #[trigger] s[i] != c,
        n < s.len() ==> s[n] == c,
    ensures
        index_of_char(s, c) == n,
    decreases s.len(),
{
    if n > 0 {
        let t = s.skip(1);
        assert forall|i: int| 0 <= i < n - 1 implies #[trigger] t[i] != c by {
            assert(t[i] == s[i + 1]);
        }
        if n < s.len() {
            assert(t[n - 1] == s[n]);
        }
        assert(s[0] != c);
        lemma_index_of_char_is(t, c, n - 1);
    }
}

pub proof fn lemma_word_len_is(s: Seq<char>, n: int)
    requires
        0 <= n <= s.len(),
        forall|i: int| 0 <= i < n ==> !white(#[trigger] s[i]),
        n < s.len() ==> white(s[n]),
    ensures
        word_len(s) == n,
    decreases s.len(),
{
    if n > 0 {
        let t = s.skip(1);
        assert forall|i: int| 0 <= i < n - 1 implies !white(#[trigger] t[i]) by {
            assert(t[i] == s[i + 1]);
        }
        if n < s.len() {
            assert(t[n - 1] == s[n]);
        }
        assert(!white(s[0]));
        lemma_word_len_is(t, n - 1);
    }
}

pub proof fn lemma_trim_start_is(s: Seq<char>, n: int)
    requires
        0 <= n <= s.len(),
        forall|i: int| 0 <= i < n ==> white(#[trigger] s[i]),
        n < s.len() ==> !white(s[n]),
    ensures
        trim_start_of(s) == s.skip(n),
    decreases s.len(),
{
    if n > 0 {
        let t = s.skip(1);
        assert forall|i: int| 0 <= i < n - 1 implies white(#[trigger] t[i]) by {
            assert(t[i] == s[i + 1]);
        }
        if n < s.len() {
            assert(t[n - 1] == s[n]);
        }
        assert(white(s[0]));
        lemma_trim_start_is(t, n - 1);
        assert(t.skip(n - 1) == s.skip(n));
    } else {
        assert(s.skip(0) == s);
    }
}

pub proof fn lemma_trim_end_is(s: Seq<char>, n: int)
    requires
        0 <= n <= s.len(),
        forall|i: int| n <= i < s.len() ==> white(#[trigger] s[i]),
        n > 0 ==> !white(s[n - 1]),
    ensures
        trim_end_of(s) == s.take(n),
    decreases s.len(),
{
    if n < s.len() {
        let t = s.drop_last();
        assert forall|i: int| n <= i < t.len() implies white(#[trigger] t[i]) by {
            assert(t[i] == s[i]);
        }
        assert(white(s[s.len() - 1]));
        lemma_trim_end_is(t, n);
        assert(t.take(n) == s.take(n));
    } else {
        assert(s.take(n) == s);
    }
}

/// A text is blank exactly when nothing is left of it after trimming.
pub proof fn lemma_blank_trim(s: Seq<char>)
    ensures
        blank(s) <==> trim_of(s).len() == 0,
    decreases s.len(),
{
    lemma_trim_start_len(s);
    lemma_trim_start_head(s);
    let t = trim_start_of(s);
    if t.len() == 0 {
        lemma_trim_empty_is_blank(s);
    } else {
        let k = s.len() - t.len();
        assert(t[0] == s[k]);
        lemma_trim_end_keeps_head(t);
    }
}

proof fn lemma_trim_empty_is_blank(s: Seq<char>)
    requires
        trim_start_of(s).len() == 0,
    ensures
        blank(s),
    decreases s.len(),
{
    if s.len() > 0 {
        assert(white(s[0]));
        lemma_trim_empty_is_blank(s.skip(1));
        assert forall|i: int| 0 <= i < s.len() implies white(#[trigger] s[i]) by {
            if i > 0 {
                assert(s.skip(1)[i - 1] == s[i]);
            }
        }
    }
}

proof fn lemma_trim_end_keeps_head(s: Seq<char>)
    requires
        s.len() > 0,
        !white(s[0]),
    ensures
        trim_end_of(s).len() > 0,
    decreases s.len(),
{
    if white(s.last()) {
        assert(s.len() > 1);
        assert(s.drop_last()[0] == s[0]);
        lemma_trim_end_keeps_head(s.drop_last());
    }
}

/// Joined parts begin with the first part and the separator.
pub proof fn lemma_join_front(parts: Seq<Seq<char>>, sep: Seq<char>)
    requires
        parts.len() >= 2,
    ensures
        join_of(parts, sep) == parts[0] + sep + join_of(parts.skip(1), sep),
    decreases parts.len(),
{
    let less = parts.drop_last();
    let rest = parts.skip(1);
    assert(rest.drop_last() =~= less.skip(1));
    assert(rest.last() == parts.last());
    if parts.len() == 2 {
        assert(less =~= seq![parts[0]]);
        assert(rest =~= seq![parts[1]]);
        assert(join_of(less, sep) == parts[0]);
        assert(join_of(rest, sep) == parts[1]);
    } else {
        lemma_join_front(less, sep);
        assert(join_of(parts, sep) =~= parts[0] + sep + (join_of(
            less.skip(1),
            sep,
        ) + sep + parts.last()));
    }
}

/// A word, a space and more have the word and the words of what follows.
pub proof fn lemma_words_front(word: Seq<char>, more: Seq<char>)
    requires
        word.len() > 0,
        forall|i: int| 0 <= i < word.len() ==> !white(#[trigger] word[i]),
    ensures
        words_of(word + " "@ + more) == seq![word] + words_of(more),
{
    reveal_strlit(" ");
    let s = word + " "@ + more;
    let n = word.len() as int;
    assert(s[0] == word[0]);
    assert(trim_start_of(s) == s);
    assert forall|i: int| 0 <= i < n implies !white(#[trigger] s[i]) by {
        assert(s[i] == word[i]);
    }
    assert(s[n] == ' ');
    lemma_word_len_is(s, n);
    assert(s.take(n) =~= word);
    let rest = s.skip(n);
    assert(rest[0] == ' ');
    assert(rest.skip(1) =~= more);
    assert(trim_start_of(rest) == trim_start_of(more));
    assert(words_of(rest) == words_of(more));
}

/// Words with one space between them: no white space but single spaces, and none at either end.
pub open spec fn neat(s: Seq<char>) -> bool {
    &&& s.len() > 0 ==> !white(s[0]) && !white(s.last())
    &&& forall|i: int| 0 <= i < s.len() && white(#[trigger] s[i]) ==> s[i] == ' '
    &&& forall|i: int, j: int|
        0 <= i && j == i + 1 && j < s.len() ==> !(white(#[trigger] s[i]) && white(#[trigger] s[j]))
}

/// The words of a text with one space between them.
pub open spec fn collapsed(s: Seq<char>) -> Seq<char> {
    join_of(words_of(s), " "@)
}

pub proof fn lemma_collapsed_is_neat(s: Seq<char>)
    ensures
        neat(collapsed(s)),
        words_of(s).len() > 0 ==> collapsed(s).len() > 0,
    decreases s.len(),
{
    reveal_strlit(" ");
    let t = trim_start_of(s);
    lemma_trim_start_len(s);
    lemma_trim_start_head(s);
    lemma_word_len_bound(t);
    if t.len() > 0 {
        let n = word_len(t) as int;
        let word = t.take(n);
        let rest = words_of(t.skip(n));
        lemma_collapsed_is_neat(t.skip(n));
        assert(words_of(s) == seq![word] + rest);
        assert forall|i: int| 0 <= i < n implies !white(#[trigger] word[i]) by {
            assert(word[i] == t[i]);
        }
        if rest.len() == 0 {
            assert(words_of(s) =~= seq![word]);
            assert(collapsed(s) == word);
        } else {
            lemma_join_front(words_of(s), " "@);
            assert(words_of(s).skip(1) =~= rest);
            let more = collapsed(t.skip(n));
            let all = word + " "@ + more;
            assert(collapsed(s) == all);
            assert(all[0] == word[0]);
            assert(all.last() == more.last());
            assert forall|i: int| 0 <= i < all.len() && white(#[trigger] all[i]) implies all[i]
                == ' ' by {
                if i > n {
                    assert(all[i] == more[i - n - 1]);
                } else if i < n {
                    assert(all[i] == word[i]);
                }
            }
            assert forall|i: int, j: int| 0 <= i && j == i + 1 && j < all.len() implies !(white(
                #[trigger] all[i],
            ) && white(#[trigger] all[j])) by {
                if i < n {
                    assert(all[i] == word[i]);
                } else if i == n {
                    assert(all[j] == more[0]);
                } else {
                    assert(all[i] == more[i - n - 1]);
                    assert(all[j] == more[j - n - 1]);
                }
            }
        }
    }
}

/// Words with one space between them are what they are made into.
pub proof fn lemma_neat_is_kept(s: Seq<char>)
    requires
        neat(s),
    ensures
        collapsed(s) == s,
        trim_of(s) == s,
    decreases s.len(),
{
    reveal_strlit(" ");
    if s.len() > 0 {
        let n = word_len(s) as int;
        let word = s.take(n);
        lemma_word_len_bound(s);
        assert(trim_start_of(s) == s);
        if n == s.len() {
            assert(s.skip(n) =~= Seq::empty());
            assert(words_of(s.skip(n)) =~= Seq::empty());
            assert(words_of(s) =~= seq![word]);
            assert(word =~= s);
        } else {
            assert(s[n] == ' ');
            assert(n + 1 < s.len());
            let j = n + 1;
            assert(!white(s[j]));
            let more = s.skip(j);
            assert(s.skip(n)[0] == ' ');
            assert(s.skip(n).skip(1) =~= more);
            assert(more[0] == s[j]);
            assert(trim_start_of(s.skip(n)) == trim_start_of(more));
            assert(words_of(s.skip(n)) == words_of(more));
            assert(neat(more)) by {
                assert(more.last() == s.last());
                assert forall|i: int| 0 <= i < more.len() && white(#[trigger] more[i]) implies more[i]
                    == ' ' by {
                    assert(more[i] == s[i + j]);
                }
                assert forall|i: int, k: int|
                    0 <= i && k == i + 1 && k < more.len() implies !(white(#[trigger] more[i])
                    && white(#[trigger] more[k])) by {
                    assert(more[i] == s[i + j]);
                    assert(more[k] == s[k + j]);
                }
            }
            lemma_neat_is_kept(more);
            let rest = words_of(more);
            assert(rest.len() > 0) by {
                if rest.len() == 0 {
                    assert(collapsed(more) =~= Seq::empty());
                }
            }
            assert(words_of(s) == seq![word] + rest);
            lemma_join_front(words_of(s), " "@);
            assert(words_of(s).skip(1) =~= rest);
            assert(word + " "@ + more =~= s);
        }
    }
}

/// Joining the parts between the occurrences of a character gives the text back.
pub proof fn lemma_join_split(s: Seq<char>, sep: char)
    ensures
        split_of(s, sep).len() > 0,
        join_of(split_of(s, sep), seq![sep]) == s,
    decreases s.len(),
{
    let n = index_of_char(s, sep) as int;
    lemma_index_of_char(s, sep);
    if n < s.len() {
        let rest = s.skip(n + 1);
        lemma_join_split(rest, sep);
        let parts = split_of(s, sep);
        assert(parts =~= seq![s.take(n)] + split_of(rest, sep));
        assert(parts.skip(1) =~= split_of(rest, sep));
        lemma_join_front(parts, seq![sep]);
        assert(s.take(n) + seq![sep] + rest =~= s);
    }
}

/// A separator between two texts keeps their parts apart.
pub proof fn lemma_split_append(a: Seq<char>, sep: char, b: Seq<char>)
    ensures
        split_of(a + seq![sep] + b, sep) == split_of(a, sep) + split_of(b, sep),
    decreases a.len(),
{
    let s = a + seq![sep] + b;
    let n = index_of_char(a, sep) as int;
    lemma_index_of_char(a, sep);
    assert forall|i: int| 0 <= i < n implies #[trigger] s[i] != sep by {
        assert(s[i] == a[i]);
    }
    if n < a.len() {
        let rest = a.skip(n + 1);
        lemma_split_append(rest, sep, b);
        assert(s[n] == a[n]);
        lemma_index_of_char_is(s, sep, n);
        assert(s.take(n) =~= a.take(n));
        assert(s.skip(n + 1) =~= rest + seq![sep] + b);
        assert(split_of(s, sep) =~= seq![a.take(n)] + (split_of(rest, sep) + split_of(b, sep)));
        assert(split_of(s, sep) =~= split_of(a, sep) + split_of(b, sep));
    } else {
        lemma_index_of_char_is(s, sep, n);
        assert(s.take(n) =~= a);
        assert(s.skip(n + 1) =~= b);
    }
}

/// A text without the separator is its only part.
pub proof fn lemma_split_one(s: Seq<char>, sep: char)
    requires
        forall|i: int| 0 <= i < s.len() ==> #[trigger] s[i] != sep,
    ensures
        split_of(s, sep) == seq![s],
{
    lemma_index_of_char_is(s, sep, s.len() as int);
}

/// Splitting joined parts gives the parts back where none of them holds the separator.
pub proof fn lemma_split_join(parts: Seq<Seq<char>>, sep: char)
    requires
        parts.len() > 0,
        forall|k: int, i: int|
            0 <= k < parts.len() && 0 <= i < parts[k].len() ==> #[trigger] parts[k][i] != sep,
    ensures
        split_of(join_of(parts, seq![sep]), sep) == parts,
    decreases parts.len(),
{
    let last = parts.last();
    assert forall|i: int| 0 <= i < last.len() implies #[trigger] last[i] != sep by {
        assert(parts[parts.len() - 1][i] != sep);
    }
    lemma_split_one(last, sep);
    if parts.len() > 1 {
        let less = parts.drop_last();
        assert forall|k: int, i: int| 0 <= k < less.len() && 0 <= i < less[k].len() implies
            #[trigger] less[k][i] != sep by {
            assert(parts[k][i] != sep);
        }
        lemma_split_join(less, sep);
        lemma_split_append(join_of(less, seq![sep]), sep, last);
        assert(less + seq![last] =~= parts);
    } else {
        assert(parts =~= seq![last]);
    }
}

pub proof fn lemma_position_is(s: Seq<char>, part: Seq<char>, n: int)
    requires
        0 <= n <= s.len(),
        forall|j: int| 0 <= j < n ==> !part.is_prefix_of(#[trigger] s.skip(j)),
        n == s.len() || part.is_prefix_of(s.skip(n)),
    ensures
        part.is_prefix_of(s.skip(n)) ==> position(s, part) == Some(n as nat),
        !part.is_prefix_of(s.skip(n)) ==> position(s, part) is None,
    decreases s.len(),
{
    assert(s.skip(0) =~= s);
    if n > 0 {
        let rest = s.skip(1);
        assert forall|j: int| 0 <= j < n - 1 implies !part.is_prefix_of(#[trigger] rest.skip(j)) by {
            assert(rest.skip(j) =~= s.skip(j + 1));
        }
        assert(rest.skip(n - 1) =~= s.skip(n));
        assert(!part.is_prefix_of(s.skip(0)));
        lemma_position_is(rest, part, n - 1);
    }
}

/// Whether a character is white space.
pub fn is_white(c: char) -> (r: bool)
    ensures
        r == white(c),
{
    ('\u{9}' <= c && c <= '\u{d}') || c == '\u{20}' || c == '\u{85}' || c == '\u{a0}' || c
        == '\u{1680}' || ('\u{2000}' <= c && c <= '\u{200a}') || c == '\u{2028}' || c == '\u{2029}'
        || c == '\u{202f}' || c == '\u{205f}' || c == '\u{3000}'
}

/// The characters of a text.
pub fn chars_of(s: &str) -> (r: Vec<char>)
    ensures
        r@ == s@,
{
    let mut out: Vec<char> = Vec::new();
    for c in it: s.chars()
        invariant
            it.seq() == s@,
            out@ == s@.take(it.index() as int),
    {
        out.push(c);
        assert(out@ == s@.take(it.index() as int + 1));
    }
    assert(s@.take(s@.len() as int) == s@);
    out
}

/// The text of a run of characters.
pub fn string_of(chars: &Vec<char>, from: usize, to: usize) -> (r: String)
    requires
        from <= to <= chars@.len(),
    ensures
        r@ == chars@.subrange(from as int, to as int),
{
    let mut out: String = String::new();
    let mut i: usize = from;
    while i < to
        invariant
            from <= i <= to <= chars@.len(),
            out@ == chars@.subrange(from as int, i as int),
        decreases to - i,
    {
        out.push(chars[i]);
        i = i + 1;
        assert(out@ == chars@.subrange(from as int, i as int));
    }
    out
}

/// Whether two texts are the same.
pub fn same(a: &str, b: &str) -> (r: bool)
    ensures
        r == (a@ == b@),
{
    let x: Vec<char> = chars_of(a);
    let y: Vec<char> = chars_of(b);
    if x.len() != y.len() {
        return false;
    }
    let mut i: usize = 0;
    while i < x.len()
        invariant
            x@ == a@,
            y@ == b@,
            x.len() == y.len(),
            0 <= i <= x.len(),
            forall|j: int| 0 <= j < i ==> x@[j] == y@[j],
        decreases x.len() - i,
    {
        if x[i] != y[i] {
            return false;
        }
        i = i + 1;
    }
    assert(a@ =~= b@);
    true
}

/// Whether a text begins with another.
pub fn starts_with(s: &str, prefix: &str) -> (r: bool)
    ensures
        r == prefix@.is_prefix_of(s@),
{
    let x: Vec<char> = chars_of(s);
    let y: Vec<char> = chars_of(prefix);
    if y.len() > x.len() {
        return false;
    }
    let mut i: usize = 0;
    while i < y.len()
        invariant
            x@ == s@,
            y@ == prefix@,
            0 <= i <= y.len() <= x.len(),
            forall|j: int| 0 <= j < i ==> x@[j] == y@[j],
        decreases y.len() - i,
    {
        if x[i] != y[i] {
            assert(prefix@[i as int] != s@.subrange(0, prefix@.len() as int)[i as int]);
            return false;
        }
        i = i + 1;
    }
    assert(prefix@ =~= s@.subrange(0, prefix@.len() as int));
    true
}

/// What follows a prefix of a text.
pub fn strip_prefix(s: &str, prefix: &str) -> (r: Option<String>)
    ensures
        r is Some <==> prefix@.is_prefix_of(s@),
        r matches Some(rest) ==> rest@ == s@.skip(prefix@.len() as int),
{
    if !starts_with(s, prefix) {
        return None;
    }
    let x: Vec<char> = chars_of(s);
    let n: usize = prefix.unicode_len();
    let rest: String = string_of(&x, n, x.len());
    assert(rest@ == s@.skip(prefix@.len() as int));
    Some(rest)
}

/// The position of the first occurrence of a character at or after `from`.
pub fn find_char(chars: &Vec<char>, from: usize, c: char) -> (r: usize)
    requires
        from <= chars@.len(),
    ensures
        from <= r <= chars@.len(),
        r == from + index_of_char(chars@.skip(from as int), c),
{
    let mut i: usize = from;
    while i < chars.len() && chars[i] != c
        invariant
            from <= i <= chars@.len(),
            forall|j: int| from <= j < i ==> chars@[j] != c,
        decreases chars.len() - i,
    {
        i = i + 1;
    }
    proof {
        lemma_index_of_char_is(chars@.skip(from as int), c, i - from);
    }
    i
}

/// Whether a character occurs in a text.
pub fn contains_char(s: &str, c: char) -> (r: bool)
    ensures
        r == s@.contains(c),
{
    let x: Vec<char> = chars_of(s);
    let n: usize = find_char(&x, 0, c);
    proof {
        assert(x@.skip(0) == x@);
        lemma_index_of_char(x@, c);
        if n < x.len() {
            assert(s@[n as int] == c);
        }
    }
    n < x.len()
}

/// The text without white space at either end.
pub fn trim(s: &str) -> (r: String)
    ensures
        r@ == trim_of(s@),
{
    let x: Vec<char> = chars_of(s);
    let mut i: usize = 0;
    while i < x.len() && is_white(x[i])
        invariant
            0 <= i <= x@.len(),
            forall|j: int| 0 <= j < i ==> white(x@[j]),
        decreases x.len() - i,
    {
        i = i + 1;
    }
    let mut k: usize = x.len();
    while k > i && is_white(x[k - 1])
        invariant
            0 <= i <= k <= x@.len(),
            forall|j: int| k <= j < x@.len() ==> white(x@[j]),
        decreases k,
    {
        k = k - 1;
    }
    let r: String = string_of(&x, i, k);
    proof {
        lemma_trim_start_is(s@, i as int);
        let t = s@.skip(i as int);
        assert forall|j: int| k - i <= j < t.len() implies white(#[trigger] t[j]) by {
            assert(t[j] == x@[j + i]);
        }
        lemma_trim_end_is(t, k - i);
        assert(t.take(k - i) == x@.subrange(i as int, k as int));
    }
    r
}

/// Whether a text holds nothing but white space.
pub fn is_blank(s: &str) -> (r: bool)
    ensures
        r == blank(s@),
        r == (trim_of(s@).len() == 0),
{
    let t: String = trim(s);
    proof {
        lemma_blank_trim(s@);
    }
    t.as_str().is_empty()
}

/// The text without the given character at its end.
pub fn trim_end(s: &str, c: char) -> (r: String)
    ensures
        r@ == trim_end_char(s@, c),
{
    let x: Vec<char> = chars_of(s);
    let mut k: usize = x.len();
    proof {
        assert(x@.take(x@.len() as int) == x@);
    }
    while k > 0 && x[k - 1] == c
        invariant
            0 <= k <= x@.len(),
            trim_end_char(x@, c) == trim_end_char(x@.take(k as int), c),
        decreases k,
    {
        proof {
            assert(x@.take(k as int).drop_last() == x@.take(k - 1));
        }
        k = k - 1;
    }
    proof {
        assert(k > 0 ==> x@.take(k as int).last() == x@[k - 1]);
    }
    let r: String = string_of(&x, 0, k);
    proof {
        assert(x@.subrange(0, k as int) == x@.take(k as int));
    }
    r
}

/// The words of a text.
pub fn words(s: &str) -> (r: Vec<String>)
    ensures
        views(r@) == words_of(s@),
{
    let x: Vec<char> = chars_of(s);
    let mut out: Vec<String> = Vec::new();
    let mut i: usize = 0;
    proof {
        assert(x@.skip(0) == s@);
        assert(views(out@) + words_of(x@.skip(0)) == words_of(s@));
    }
    loop
        invariant
            0 <= i <= x@.len(),
            views(out@) + words_of(x@.skip(i as int)) == words_of(s@),
        ensures
            views(out@) == words_of(s@),
        decreases x@.len() - i,
    {
        let mut k: usize = i;
        while k < x.len() && is_white(x[k])
            invariant
                i <= k <= x@.len(),
                forall|j: int| i <= j < k ==> white(x@[j]),
            decreases x.len() - k,
        {
            k = k + 1;
        }
        proof {
            lemma_trim_start_is(x@.skip(i as int), k - i);
            assert(x@.skip(i as int).skip(k - i) == x@.skip(k as int));
        }
        if k == x.len() {
            proof {
                assert(words_of(x@.skip(i as int)) == Seq::<Seq<char>>::empty());
                assert(views(out@) + Seq::<Seq<char>>::empty() == views(out@));
            }
            break;
        }
        let mut e: usize = k;
        while e < x.len() && !is_white(x[e])
            invariant
                i <= k <= e <= x@.len(),
                forall|j: int| k <= j < e ==> !white(x@[j]),
            decreases x.len() - e,
        {
            e = e + 1;
        }
        let w: String = string_of(&x, k, e);
        proof {
            let t = x@.skip(k as int);
            assert(t[0] == x@[k as int]);
            lemma_word_len_is(t, e - k);
            assert(e > k);
            assert(t.take(e - k) == w@);
            assert(t.skip(e - k) == x@.skip(e as int));
            assert(words_of(x@.skip(i as int)) == seq![w@] + words_of(x@.skip(e as int)));
            assert(views(out@.push(w)) == views(out@).push(w@));
            assert(views(out@).push(w@) + words_of(x@.skip(e as int)) == views(out@) + (seq![w@]
                + words_of(x@.skip(e as int))));
        }
        out.push(w);
        i = e;
    }
    out
}

/// The parts of a text between the occurrences of a separator.
pub fn split(s: &str, sep: char) -> (r: Vec<String>)
    ensures
        views(r@) == split_of(s@, sep),
{
    let x: Vec<char> = chars_of(s);
    let mut out: Vec<String> = Vec::new();
    let mut i: usize = 0;
    proof {
        assert(x@.skip(0) == s@);
        assert(views(out@) + split_of(x@.skip(0), sep) == split_of(s@, sep));
    }
    loop
        invariant_except_break
            views(out@) + split_of(x@.skip(i as int), sep) == split_of(s@, sep),
        invariant
            0 <= i <= x@.len(),
        ensures
            views(out@) == split_of(s@, sep),
        decreases x@.len() - i,
    {
        let k: usize = find_char(&x, i, sep);
        let part: String = string_of(&x, i, k);
        proof {
            let t = x@.skip(i as int);
            assert(t.take(k - i) == part@);
            assert(views(out@.push(part)) == views(out@).push(part@));
            if k < x.len() {
                assert(t.skip(k - i + 1) == x@.skip(k + 1));
                assert(views(out@).push(part@) + split_of(x@.skip(k + 1), sep) == views(out@) + (
                seq![part@] + split_of(x@.skip(k + 1), sep)));
            } else {
                assert(t == part@);
                assert(views(out@).push(part@) == views(out@) + seq![part@]);
            }
        }
        out.push(part);
        if k == x.len() {
            break;
        }
        i = k + 1;
    }
    out
}

/// The lines of a text.
pub fn lines(s: &str) -> (r: Vec<String>)
    ensures
        views(r@) == lines_of(s@),
{
    let x: Vec<char> = chars_of(s);
    let mut out: Vec<String> = Vec::new();
    let mut i: usize = 0;
    proof {
        assert(x@.skip(0) == s@);
        assert(views(out@) + lines_of(x@.skip(0)) == lines_of(s@));
    }
    while i < x.len()
        invariant
            0 <= i <= x@.len(),
            views(out@) + lines_of(x@.skip(i as int)) == lines_of(s@),
        decreases x@.len() - i,
    {
        let k: usize = find_char(&x, i, '\n');
        let ghost t = x@.skip(i as int);
        if k < x.len() {
            let e: usize = if k > i && x[k - 1] == '\r' {
                k - 1
            } else {
                k
            };
            let line: String = string_of(&x, i, e);
            proof {
                assert(t.take(k - i) == x@.subrange(i as int, k as int));
                if k > i {
                    assert(t.take(k - i).last() == x@[k - 1]);
                }
                assert(without_cr(t.take(k - i)) == line@);
                assert(t.skip(k - i + 1) == x@.skip(k + 1));
                assert(views(out@.push(line)) == views(out@).push(line@));
                assert(views(out@).push(line@) + lines_of(x@.skip(k + 1)) == views(out@) + (
                seq![line@] + lines_of(x@.skip(k + 1))));
            }
            out.push(line);
            i = k + 1;
        } else {
            let line: String = string_of(&x, i, k);
            proof {
                assert(t == line@);
                assert(views(out@.push(line)) == views(out@).push(line@));
                assert(views(out@).push(line@) + Seq::<Seq<char>>::empty() == views(out@)
                    + seq![line@]);
                assert(x@.skip(k as int) == Seq::<char>::empty());
            }
            out.push(line);
            i = k;
        }
    }
    proof {
        assert(x@.skip(i as int) == Seq::<char>::empty());
        assert(views(out@) + Seq::<Seq<char>>::empty() == views(out@));
    }
    out
}

/// The parts with a separator between neighbours.
pub fn join(parts: &Vec<String>, sep: &str) -> (r: String)
    ensures
        r@ == join_of(views(parts@), sep@),
{
    let mut out: String = String::new();
    let mut i: usize = 0;
    while i < parts.len()
        invariant
            0 <= i <= parts@.len(),
            out@ == join_of(views(parts@).take(i as int), sep@),
        decreases parts.len() - i,
    {
        if i > 0 {
            out.append(sep);
        }
        out.append(parts[i].as_str());
        proof {
            let v = views(parts@).take(i + 1);
            assert(v.drop_last() == views(parts@).take(i as int));
            assert(v.last() == parts@[i as int]@);
            if i == 0 {
                assert(views(parts@).take(0) == Seq::<Seq<char>>::empty());
                assert(out@ == parts@[0]@);
            }
        }
        i = i + 1;
    }
    proof {
        assert(views(parts@).take(i as int) == views(parts@));
    }
    out
}

/// The first `max` characters of a text.
pub fn clipped(s: &str, max: usize) -> (r: String)
    ensures
        r@ == clip(s@, max as nat),
{
    let x: Vec<char> = chars_of(s);
    let n: usize = if x.len() <= max {
        x.len()
    } else {
        max
    };
    let r: String = string_of(&x, 0, n);
    proof {
        assert(x@.subrange(0, n as int) == clip(s@, max as nat));
    }
    r
}

/// Where a text occurs in another for the first time, in characters.
pub fn find(s: &str, part: &str) -> (r: Option<usize>)
    ensures
        r is Some <==> position(s@, part@) is Some,
        r matches Some(n) ==> position(s@, part@) == Some(n as nat) && n + part@.len() <= s@.len(),
{
    let x: Vec<char> = chars_of(s);
    let y: Vec<char> = chars_of(part);
    let mut i: usize = 0;
    loop
        invariant
            x@ == s@,
            y@ == part@,
            i <= x@.len(),
            forall|j: int| 0 <= j < i ==> !y@.is_prefix_of(#[trigger] x@.skip(j)),
        decreases x@.len() - i,
    {
        let mut k: usize = 0;
        while k < y.len() && k < x.len() - i && x[i + k] == y[k]
            invariant
                i <= x@.len(),
                k <= y@.len(),
                k <= x@.len() - i,
                forall|j: int| 0 <= j < k ==> x@[i + j] == y@[j],
            decreases y.len() - k,
        {
            k = k + 1;
        }
        proof {
            let tail = x@.skip(i as int);
            if k < y@.len() {
                if y@.is_prefix_of(tail) {
                    assert(tail.subrange(0, y@.len() as int)[k as int] == y@[k as int]);
                    assert(tail[k as int] == x@[i + k]);
                }
            } else {
                assert(y@ =~= tail.subrange(0, y@.len() as int));
            }
        }
        if k == y.len() {
            proof {
                lemma_position_is(s@, part@, i as int);
            }
            return Some(i);
        }
        if i == x.len() {
            proof {
                lemma_position_is(s@, part@, i as int);
            }
            return None;
        }
        i = i + 1;
    }
}

/// Every occurrence of one character turned into another.
pub fn replace_char(s: &str, from: char, to: char) -> (r: String)
    ensures
        r@ == replaced(s@, from, to),
{
    let x: Vec<char> = chars_of(s);
    let mut out: String = String::new();
    let mut i: usize = 0;
    while i < x.len()
        invariant
            0 <= i <= x@.len(),
            out@ == replaced(x@.take(i as int), from, to),
        decreases x.len() - i,
    {
        out.push(if x[i] == from { to } else { x[i] });
        i = i + 1;
        proof {
            assert(out@ =~= replaced(x@.take(i as int), from, to));
        }
    }
    proof {
        assert(x@.take(i as int) == x@);
    }
    out
}

/// Whether a name is among names.
pub fn among(names: &Vec<String>, name: &str) -> (r: bool)
    ensures
        r == views(names@).contains(name@),
{
    let mut i: usize = 0;
    while i < names.len()
        invariant
            0 <= i <= names@.len(),
            forall|j: int| 0 <= j < i ==> (#[trigger] names@[j])@ != name@,
        decreases names.len() - i,
    {
        if same(names[i].as_str(), name) {
            proof {
                assert(views(names@)[i as int] == name@);
            }
            return true;
        }
        i = i + 1;
    }
    proof {
        assert forall|j: int| 0 <= j < names@.len() implies views(names@)[j] != name@ by {
            assert(names@[j]@ != name@);
        }
    }
    false
}

/// A number in decimal notation.
pub fn decimal_of(n: u64) -> (r: String)
    ensures
        r@ == decimal(n as nat),
    decreases n,
{
    let d: u8 = (n % 10) as u8;
    let c: char = (48u8 + d) as char;
    if n < 10 {
        let mut out: String = String::new();
        out.push(c);
        proof {
            assert(out@ =~= decimal(n as nat));
        }
        out
    } else {
        let mut out: String = decimal_of(n / 10);
        out.push(c);
        out
    }
}

/// The bytes of a text.
pub fn bytes_of(s: &str) -> (r: Vec<u8>)
    ensures
        r@ == vstd::utf8::encode_utf8(s@),
{
    let mut r: Vec<u8> = Vec::new();
    r.extend_from_slice(s.as_bytes());
    proof {
        assert(r@ =~= vstd::utf8::encode_utf8(s@));
    }
    r
}

} // verus!
