//! What holds of texts.
use crate::percent;
use crate::strings;
use vstd::prelude::*;

verus! {

proof fn lemma_trim_start(s: Seq<char>) -> (n: int)
    ensures
        0 <= n <= s.len(),
        strings::trim_start_of(s) == s.skip(n),
        forall|i: int| 0 <= i < n ==> strings::white(#[trigger] s[i]),
        n < s.len() ==> !strings::white(s[n]),
    decreases s.len(),
{
    if s.len() > 0 && strings::white(s[0]) {
        let rest = s.skip(1);
        let n = lemma_trim_start(rest);
        assert(rest.skip(n) =~= s.skip(n + 1));
        assert forall|i: int| 0 <= i < n + 1 implies strings::white(#[trigger] s[i]) by {
            if i > 0 {
                assert(rest[i - 1] == s[i]);
            }
        }
        n + 1
    } else {
        assert(s.skip(0) =~= s);
        0
    }
}

proof fn lemma_trim_end(s: Seq<char>) -> (n: int)
    ensures
        0 <= n <= s.len(),
        strings::trim_end_of(s) == s.take(n),
        forall|i: int| n <= i < s.len() ==> strings::white(#[trigger] s[i]),
        n > 0 ==> !strings::white(s[n - 1]),
    decreases s.len(),
{
    if s.len() > 0 && strings::white(s.last()) {
        let less = s.drop_last();
        let n = lemma_trim_end(less);
        assert(less.take(n) =~= s.take(n));
        assert forall|i: int| n <= i < s.len() implies strings::white(#[trigger] s[i]) by {
            if i < less.len() {
                assert(less[i] == s[i]);
            }
        }
        n
    } else {
        assert(s.take(s.len() as int) =~= s);
        s.len() as int
    }
}

/// Trimming takes away the white space at both ends and nothing else.
pub proof fn law_trimming_takes_white_space_from_the_ends(s: Seq<char>) -> (ends: (int, int))
    ensures
        0 <= ends.0 <= ends.1 <= s.len(),
        strings::trim_of(s) == s.subrange(ends.0, ends.1),
        strings::blank(s.take(ends.0)),
        strings::blank(s.skip(ends.1)),
        ends.0 < ends.1 ==> !strings::white(s[ends.0]) && !strings::white(s[ends.1 - 1]),
{
    let a = lemma_trim_start(s);
    let t = s.skip(a);
    let b = lemma_trim_end(t);
    assert(t.take(b) =~= s.subrange(a, a + b));
    assert forall|i: int| 0 <= i < s.skip(a + b).len() implies strings::white(
        #[trigger] s.skip(a + b)[i],
    ) by {
        assert(s.skip(a + b)[i] == t[b + i]);
    }
    if b > 0 {
        assert(t[0] == s[a]);
        assert(t[b - 1] == s[a + b - 1]);
    }
    (a, a + b)
}

/// A text is blank if and only if nothing of it is left once it is trimmed.
pub proof fn law_blank_texts_are_white_space(s: Seq<char>)
    ensures
        strings::blank(s) <==> forall|i: int| 0 <= i < s.len() ==> strings::white(#[trigger] s[i]),
        strings::white(' ') && strings::white('\t') && strings::white('\n') && strings::white('\r'),
        forall|c: char| '!' <= c <= '~' ==> !#[trigger] strings::white(c),
{
}

/// A character at the end of a text is taken away as often as it stands there.
pub proof fn law_ends_are_taken_away(s: Seq<char>, c: char, other: char)
    requires
        other != c,
    ensures
        strings::trim_end_char(s.push(c), c) == strings::trim_end_char(s, c),
        strings::trim_end_char(s.push(other), c) == s.push(other),
        strings::trim_end_char(Seq::empty(), c) == Seq::<char>::empty(),
{
    assert(s.push(c).drop_last() =~= s);
}

/// A clipped text is its beginning: all of it, or as many characters as there may be.
pub proof fn law_clipped_texts_are_beginnings(s: Seq<char>, max: nat)
    ensures
        strings::clip(s, max).is_prefix_of(s),
        strings::clip(s, max).len() == if s.len() < max {
            s.len()
        } else {
            max
        },
{
    assert(strings::clip(s, max) =~= s.subrange(0, strings::clip(s, max).len() as int));
}

/// Replacing a character changes its occurrences and nothing else.
pub proof fn law_replacing_changes_one_character(s: Seq<char>, from: char, to: char, i: int)
    requires
        0 <= i < s.len(),
    ensures
        strings::replaced(s, from, to).len() == s.len(),
        s[i] == from ==> strings::replaced(s, from, to)[i] == to,
        s[i] != from ==> strings::replaced(s, from, to)[i] == s[i],
{
}

/// A number begins with no zero unless it is zero, and says its value in digits.
pub proof fn law_numbers_are_written_shortly(n: nat)
    ensures
        strings::decimal_value(strings::decimal(n)) == n,
        strings::decimal(n)[0] == '0' <==> n == 0,
        strings::decimal(n).len() == 1 <==> n < 10,
    decreases n,
{
    strings::lemma_decimal(n);
    if n >= 10 {
        law_numbers_are_written_shortly(n / 10);
        strings::lemma_decimal(n / 10);
        assert(strings::decimal(n)[0] == strings::decimal(n / 10)[0]);
    }
}

/// Digits one behind the other count by tens.
pub proof fn law_digits_count_by_tens(s: Seq<char>, d: nat)
    requires
        d < 10,
    ensures
        strings::decimal_value(s.push(('0' as nat + d) as char)) == 10 * strings::decimal_value(s)
            + d,
        strings::decimal_value(Seq::empty()) == 0,
{
    let c = ('0' as nat + d) as char;
    assert(s.push(c).drop_last() =~= s);
}

/// Lines end at line feeds; a carriage return before one belongs to it.
pub proof fn law_lines_end_at_line_feeds(line: Seq<char>, rest: Seq<char>)
    requires
        !line.contains('\n'),
        line.len() == 0 || line.last() != '\r',
    ensures
        strings::lines_of(line + seq!['\n'] + rest) == seq![line] + strings::lines_of(rest),
        strings::lines_of(line + seq!['\r', '\n'] + rest) == seq![line] + strings::lines_of(rest),
        line.len() > 0 ==> strings::lines_of(line) == seq![line],
        strings::lines_of(Seq::empty()) == Seq::<Seq<char>>::empty(),
{
    let one = line + seq!['\n'] + rest;
    let two = line + seq!['\r', '\n'] + rest;
    let n = line.len() as int;
    assert forall|i: int| 0 <= i < n implies #[trigger] line[i] != '\n' by {
        assert(line.contains(line[i]));
    }
    assert forall|i: int| 0 <= i < n implies #[trigger] one[i] != '\n' by {
        assert(one[i] == line[i]);
    }
    strings::lemma_index_of_char_is(one, '\n', n);
    assert(one.take(n) =~= line);
    assert(one.skip(n + 1) =~= rest);
    assert forall|i: int| 0 <= i < n + 1 implies #[trigger] two[i] != '\n' by {
        if i < n {
            assert(two[i] == line[i]);
        }
    }
    strings::lemma_index_of_char_is(two, '\n', n + 1);
    assert(two.take(n + 1) =~= line.push('\r'));
    assert(two.take(n + 1).drop_last() =~= line);
    assert(two.skip(n + 2) =~= rest);
    strings::lemma_index_of_char_is(line, '\n', n);
}

/// Letters, digits and the four marks `-._~` are written as they are in an address, and a slash where
/// it may be. Every other byte is a percent sign and its value in two digits of base sixteen.
pub proof fn law_addresses_escape_what_they_must(b: u8, slash: bool)
    ensures
        ({
            let text = percent::percent_text(seq![b], slash);
            let plain = 'a' <= b as char <= 'z' || 'A' <= b as char <= 'Z' || '0' <= b as char <= '9'
                || b == '-' as u8 || b == '.' as u8 || b == '_' as u8 || b == '~' as u8 || (slash && b
                == '/' as u8);
            let digit = |d: int|
                if d < 10 {
                    ('0' as int + d) as char
                } else {
                    ('A' as int + d - 10) as char
                };
            text == if plain {
                seq![b as char]
            } else {
                seq!['%', digit(b as int / 16), digit(b as int % 16)]
            }
        }),
{
    assert(seq![b].skip(1) =~= Seq::empty());
    assert(percent::percent_text(Seq::<u8>::empty(), slash) =~= Seq::empty());
    assert(percent::percent_text(seq![b], slash) =~= percent::escaped(b, slash));
}

/// Bytes one behind the other are written one behind the other.
pub proof fn law_addresses_are_written_byte_by_byte(a: Seq<u8>, b: Seq<u8>, slash: bool)
    ensures
        percent::percent_text(a + b, slash) == percent::percent_text(a, slash)
            + percent::percent_text(b, slash),
    decreases a.len(),
{
    if a.len() == 0 {
        assert(a + b =~= b);
        assert(percent::percent_text(a, slash) + percent::percent_text(b, slash)
            =~= percent::percent_text(b, slash));
    } else {
        law_addresses_are_written_byte_by_byte(a.skip(1), b, slash);
        assert((a + b).skip(1) =~= a.skip(1) + b);
        assert(percent::percent_text(a + b, slash) =~= percent::percent_text(a, slash)
            + percent::percent_text(b, slash));
    }
}

/// Words are what stands between white space.
pub proof fn law_words_stand_between_white_space(word: Seq<char>, rest: Seq<char>, c: char)
    requires
        word.len() > 0,
        forall|i: int| 0 <= i < word.len() ==> !strings::white(#[trigger] word[i]),
        strings::white(c),
    ensures
        strings::words_of(seq![' '] + rest) == strings::words_of(rest),
        strings::words_of(word + seq![' '] + rest) == seq![word] + strings::words_of(rest),
        strings::words_of(Seq::empty()).len() == 0,
        strings::words_of(seq![c]).len() == 0,
{
    reveal_strlit(" ");
    assert(" "@ =~= seq![' ']);
    strings::lemma_words_front(word, rest);
    let s = seq![' '] + rest;
    assert(s[0] == ' ');
    assert(s.skip(1) =~= rest);
    assert(strings::trim_start_of(s) == strings::trim_start_of(rest));
    let one = seq![c];
    assert(one.skip(1) =~= Seq::empty());
    assert(strings::trim_start_of(one) == strings::trim_start_of(one.skip(1)));
    assert(strings::trim_start_of(one).len() == 0);
}

} // verus!
