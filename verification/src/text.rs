//! Texts as sequences of characters: decoding, lowercasing, whitespace and
//! words, suffixes, and decimal numerals.

use vstd::prelude::*;
use vstd::utf8::{decode_utf8, valid_utf8};

verus! {

/// Whether two texts are the same.
pub fn same_text(a: &str, b: &str) -> (same: bool)
    ensures
        same == (a@ == b@),
{
    a.to_owned() == b.to_owned()
}

/// The characters of a text, one element each.
pub fn chars_of(text: &str) -> (chars: Vec<char>)
    ensures
        chars@ == text@,
{
    let mut chars: Vec<char> = Vec::new();
    for c in iter: text.chars()
        invariant
            iter.seq() == text@,
            chars@ == iter.seq().take(iter.index()),
    {
        chars.push(c);
        proof {
            assert(iter.seq().take(iter.index() + 1) =~= iter.seq().take(iter.index()).push(c));
        }
    }
    proof {
        assert(text@.take(text@.len() as int) =~= text@);
    }
    chars
}

/// Appends one character to a text. This is `String::push`, which vstd leaves
/// unspecified: the new text is the old one followed by `c`.
#[verifier::external_body]
pub(crate) fn push_char(text: &mut String, c: char)
    ensures
        final(text)@ == old(text)@.push(c),
{
    text.push(c)
}

/// The text made of the given characters.
pub fn text_of(chars: &Vec<char>) -> (text: String)
    ensures
        text@ == chars@,
{
    let mut text = String::new();
    let mut i: usize = 0;
    while i < chars.len()
        invariant
            i <= chars.len(),
            text@ == chars@.take(i as int),
        decreases chars.len() - i,
    {
        push_char(&mut text, chars[i]);
        proof {
            assert(chars@.take(i + 1) =~= chars@.take(i as int).push(chars@[i as int]));
        }
        i += 1;
    }
    proof {
        assert(chars@.take(chars@.len() as int) =~= chars@);
    }
    text
}

/// What `std::str::from_utf8` says of bytes that are no valid UTF-8: the
/// `Display` text of its error.
pub uninterp spec fn utf8_error_text(bytes: Seq<u8>) -> Seq<char>;

/// Reads bytes as UTF-8 text with `std::str::from_utf8`: it succeeds exactly on
/// valid UTF-8, and the text is what the bytes encode. The error's text depends
/// on the bytes alone.
#[verifier::external_body]
pub(crate) fn decode_text(bytes: &[u8]) -> (text: Result<&str, String>)
    ensures
        text is Ok <==> valid_utf8(bytes@),
        text matches Ok(t) ==> t@ == decode_utf8(bytes@),
        text matches Err(e) ==> e@ == utf8_error_text(bytes@),
{
    std::str::from_utf8(bytes).map_err(|e| e.to_string())
}

/// What `str::to_lowercase` makes of a text. Unicode's case tables decide it,
/// so the library only names it.
pub uninterp spec fn lowercased(text: Seq<char>) -> Seq<char>;

/// Lowercases a text with `str::to_lowercase`. The result depends on the
/// argument alone; nothing else is claimed of it.
#[verifier::external_body]
pub(crate) fn lowercase(text: &str) -> (lower: String)
    ensures
        lower@ == lowercased(text@),
{
    text.to_lowercase()
}

/// Whether a character has Unicode's `White_Space` property.
pub open spec fn is_whitespace(c: char) -> bool {
    let code = c as u32;
    ||| 0x09 <= code <= 0x0D
    ||| code == 0x20
    ||| code == 0x85
    ||| code == 0xA0
    ||| code == 0x1680
    ||| 0x2000 <= code <= 0x200A
    ||| code == 0x2028
    ||| code == 0x2029
    ||| code == 0x202F
    ||| code == 0x205F
    ||| code == 0x3000
}

/// Tests a character for Unicode's `White_Space` property.
pub fn char_is_whitespace(c: char) -> (white: bool)
    ensures
        white == is_whitespace(c),
{
    let code: u32 = c as u32;
    (0x09 <= code && code <= 0x0D) || code == 0x20 || code == 0x85 || code == 0xA0 || code
        == 0x1680 || (0x2000 <= code && code <= 0x200A) || code == 0x2028 || code == 0x2029
        || code == 0x202F || code == 0x205F || code == 0x3000
}

/// The length of the run of non-whitespace characters at the start of `s`.
pub open spec fn word_len(s: Seq<char>) -> nat
    decreases s.len(),
{
    if s.len() == 0 || is_whitespace(s[0]) {
        0
    } else {
        1 + word_len(s.drop_first())
    }
}

/// The words of a text: its maximal runs of non-whitespace characters, in
/// order.
pub open spec fn words(s: Seq<char>) -> Seq<Seq<char>>
    decreases s.len(),
    via words_decreases
{
    if s.len() == 0 {
        Seq::empty()
    } else if is_whitespace(s[0]) {
        words(s.drop_first())
    } else {
        seq![s.take(word_len(s) as int)] + words(s.skip(word_len(s) as int))
    }
}

#[via_fn]
proof fn words_decreases(s: Seq<char>) {
    lemma_word_len(s);
}

/// The given words with one space between neighbours.
pub open spec fn joined(parts: Seq<Seq<char>>) -> Seq<char>
    decreases parts.len(),
{
    if parts.len() == 0 {
        Seq::empty()
    } else if parts.len() == 1 {
        parts[0]
    } else {
        parts[0] + seq![' '] + joined(parts.drop_first())
    }
}

/// A text with every run of whitespace between two words replaced by one space,
/// and the whitespace before the first and after the last word removed.
pub open spec fn collapsed(s: Seq<char>) -> Seq<char> {
    joined(words(s))
}

/// A word: not empty, and free of whitespace.
pub open spec fn is_word(w: Seq<char>) -> bool {
    w.len() > 0 && forall|i: int| 0 <= i < w.len() ==> !is_whitespace(#[trigger] w[i])
}

/// The leading run of non-whitespace characters ends inside the text, and is
/// followed by whitespace or by the end of the text.
pub proof fn lemma_word_len(s: Seq<char>)
    ensures
        word_len(s) <= s.len(),
        forall|i: int| 0 <= i < word_len(s) ==> !is_whitespace(#[trigger] s[i]),
        word_len(s) < s.len() ==> is_whitespace(s[word_len(s) as int]),
    decreases s.len(),
{
    if s.len() == 0 || is_whitespace(s[0]) {
    } else {
        let rest = s.drop_first();
        lemma_word_len(rest);
        assert forall|i: int| 0 <= i < word_len(s) implies !is_whitespace(#[trigger] s[i]) by {
            if i > 0 {
                assert(s[i] == rest[i - 1]);
            }
        }
        if word_len(s) < s.len() {
            assert(s[word_len(s) as int] == rest[word_len(rest) as int]);
        }
    }
}

/// A run of `n` non-whitespace characters that whitespace or the end of the
/// text follows is the leading word.
pub proof fn lemma_word_len_is(s: Seq<char>, n: nat)
    requires
        n <= s.len(),
        forall|i: int| 0 <= i < n ==> !is_whitespace(#[trigger] s[i]),
        n < s.len() ==> is_whitespace(s[n as int]),
    ensures
        word_len(s) == n,
    decreases n,
{
    if n == 0 {
    } else {
        let rest = s.drop_first();
        assert(!is_whitespace(s[0]));
        assert forall|i: int| 0 <= i < n - 1 implies !is_whitespace(#[trigger] rest[i]) by {
            assert(rest[i] == s[i + 1]);
        }
        if n - 1 < rest.len() {
            assert(rest[n - 1] == s[n as int]);
        }
        lemma_word_len_is(rest, (n - 1) as nat);
    }
}

/// Every element of `words(s)` is a word.
pub proof fn lemma_words_are_words(s: Seq<char>)
    ensures
        forall|k: int| 0 <= k < words(s).len() ==> is_word(#[trigger] words(s)[k]),
    decreases s.len(),
{
    if s.len() == 0 {
        assert(words(s).len() == 0);
    } else if is_whitespace(s[0]) {
        lemma_words_are_words(s.drop_first());
        assert(words(s) == words(s.drop_first()));
    } else {
        let n = word_len(s);
        lemma_word_len(s);
        let first = s.take(n as int);
        let rest = words(s.skip(n as int));
        lemma_words_are_words(s.skip(n as int));
        assert(is_word(first)) by {
            assert forall|i: int| 0 <= i < first.len() implies !is_whitespace(
                #[trigger] first[i],
            ) by {
                assert(first[i] == s[i]);
            }
        }
        assert(words(s) == seq![first] + rest);
        assert forall|k: int| 0 <= k < words(s).len() implies is_word(#[trigger] words(s)[k]) by {
            if k > 0 {
                assert(words(s)[k] == rest[k - 1]);
            } else {
                assert(words(s)[0] == first);
            }
        }
    }
}

/// Splitting a text that was joined from words gives those words back.
pub proof fn lemma_words_of_joined(parts: Seq<Seq<char>>)
    requires
        forall|k: int| 0 <= k < parts.len() ==> is_word(#[trigger] parts[k]),
    ensures
        words(joined(parts)) == parts,
    decreases parts.len(),
{
    if parts.len() == 0 {
    } else {
        let first = parts[0];
        let text = joined(parts);
        assert(is_word(first));
        if parts.len() == 1 {
            assert(text == first);
            assert(!is_whitespace(text[0]));
            lemma_word_len_is(text, first.len());
            assert(text.take(first.len() as int) =~= first);
            assert(text.skip(first.len() as int).len() == 0);
            assert(words(text.skip(first.len() as int)) =~= Seq::<Seq<char>>::empty());
            assert(words(text) == seq![first] + words(text.skip(first.len() as int)));
            assert(words(text) =~= parts);
        } else {
            let rest = parts.drop_first();
            assert forall|k: int| 0 <= k < rest.len() implies is_word(#[trigger] rest[k]) by {
                assert(rest[k] == parts[k + 1]);
            }
            lemma_words_of_joined(rest);
            assert(text == first + seq![' '] + joined(rest));
            assert forall|i: int| 0 <= i < first.len() implies !is_whitespace(
                #[trigger] text[i],
            ) by {
                assert(text[i] == first[i]);
            }
            assert(text[first.len() as int] == ' ');
            assert(!is_whitespace(text[0]));
            lemma_word_len_is(text, first.len());
            assert(text.take(first.len() as int) =~= first);
            let tail = text.skip(first.len() as int);
            assert(tail[0] == ' ');
            assert(tail.drop_first() =~= joined(rest));
            assert(words(tail) == words(joined(rest)));
            assert(words(text) =~= seq![first] + rest);
            assert(seq![first] + rest =~= parts);
        }
    }
}

/// Collapsing whitespace a second time changes nothing.
pub proof fn lemma_collapsed_idempotent(s: Seq<char>)
    ensures
        collapsed(collapsed(s)) == collapsed(s),
{
    lemma_words_are_words(s);
    lemma_words_of_joined(words(s));
}

/// The character sequences that a list of character vectors holds.
pub open spec fn word_views(parts: Seq<Vec<char>>) -> Seq<Seq<char>> {
    Seq::new(parts.len(), |k: int| parts[k]@)
}

/// The words of a text, as `str::split_whitespace` yields them.
pub fn split_words(chars: &Vec<char>) -> (parts: Vec<Vec<char>>)
    ensures
        word_views(parts@) == words(chars@),
{
    let mut parts: Vec<Vec<char>> = Vec::new();
    let mut i: usize = 0;
    proof {
        assert(chars@.skip(0) =~= chars@);
        assert(word_views(parts@) + words(chars@) =~= words(chars@));
    }
    while i < chars.len()
        invariant
            i <= chars.len(),
            word_views(parts@) + words(chars@.skip(i as int)) == words(chars@),
        decreases chars.len() - i,
    {
        let ghost rest = chars@.skip(i as int);
        if char_is_whitespace(chars[i]) {
            proof {
                assert(rest[0] == chars@[i as int]);
                assert(rest.drop_first() =~= chars@.skip(i + 1));
            }
            i += 1;
        } else {
            let mut word: Vec<char> = Vec::new();
            let mut j: usize = i;
            while j < chars.len() && !char_is_whitespace(chars[j])
                invariant
                    i <= j <= chars.len(),
                    word@ == chars@.subrange(i as int, j as int),
                    forall|k: int| i <= k < j ==> !is_whitespace(#[trigger] chars@[k]),
                decreases chars.len() - j,
            {
                word.push(chars[j]);
                proof {
                    assert(chars@.subrange(i as int, j + 1) =~= chars@.subrange(
                        i as int,
                        j as int,
                    ).push(chars@[j as int]));
                }
                j += 1;
            }
            proof {
                let n = (j - i) as nat;
                assert(rest[0] == chars@[i as int]);
                assert forall|k: int| 0 <= k < n implies !is_whitespace(#[trigger] rest[k]) by {
                    assert(rest[k] == chars@[i + k]);
                }
                if n < rest.len() {
                    assert(rest[n as int] == chars@[j as int]);
                }
                lemma_word_len_is(rest, n);
                assert(rest.take(n as int) =~= word@);
                assert(rest.skip(n as int) =~= chars@.skip(j as int));
                let ghost before = word_views(parts@);
                assert(words(rest) == seq![word@] + words(chars@.skip(j as int)));
                assert(before.push(word@) + words(chars@.skip(j as int)) =~= before + words(rest));
            }
            let ghost before = word_views(parts@);
            parts.push(word);
            proof {
                assert(word_views(parts@) =~= before.push(word@));
            }
            i = j;
        }
    }
    proof {
        assert(chars@.skip(chars@.len() as int).len() == 0);
        assert(word_views(parts@) + Seq::<Seq<char>>::empty() =~= word_views(parts@));
    }
    parts
}

/// Joining one more word appends a space and the word, or the word alone where
/// it is the first.
pub proof fn lemma_joined_push(parts: Seq<Seq<char>>, word: Seq<char>)
    ensures
        joined(parts.push(word)) == if parts.len() == 0 {
            word
        } else {
            joined(parts) + seq![' '] + word
        },
    decreases parts.len(),
{
    let all = parts.push(word);
    if parts.len() == 0 {
        assert(all[0] == word);
    } else {
        let rest = parts.drop_first();
        assert(all.drop_first() =~= rest.push(word));
        assert(all[0] == parts[0]);
        lemma_joined_push(rest, word);
        if rest.len() == 0 {
            assert(joined(parts) == parts[0]);
        } else {
            assert(joined(all) =~= joined(parts) + seq![' '] + word);
        }
    }
}

/// Joins words with one space between neighbours.
pub fn join_words(parts: &Vec<Vec<char>>) -> (text: Vec<char>)
    ensures
        text@ == joined(word_views(parts@)),
{
    let mut text: Vec<char> = Vec::new();
    let mut k: usize = 0;
    let ghost all = word_views(parts@);
    proof {
        assert(all.take(0) =~= Seq::<Seq<char>>::empty());
    }
    while k < parts.len()
        invariant
            k <= parts.len(),
            all == word_views(parts@),
            text@ == joined(all.take(k as int)),
        decreases parts.len() - k,
    {
        let word = &parts[k];
        proof {
            assert(all.take(k + 1) =~= all.take(k as int).push(word@));
            lemma_joined_push(all.take(k as int), word@);
        }
        if k > 0 {
            text.push(' ');
        }
        let ghost start = text@;
        let mut i: usize = 0;
        while i < word.len()
            invariant
                i <= word.len(),
                text@ == start + word@.take(i as int),
            decreases word.len() - i,
        {
            text.push(word[i]);
            proof {
                assert(word@.take(i + 1) =~= word@.take(i as int).push(word@[i as int]));
            }
            i += 1;
        }
        proof {
            assert(word@.take(word@.len() as int) =~= word@);
        }
        k += 1;
    }
    proof {
        assert(all.take(parts.len() as int) =~= all);
    }
    text
}

/// Collapses the whitespace of a text: its words, joined by single spaces.
pub fn collapse_whitespace(text: &str) -> (out: String)
    ensures
        out@ == collapsed(text@),
{
    let chars = chars_of(text);
    let parts = split_words(&chars);
    let joined_chars = join_words(&parts);
    text_of(&joined_chars)
}

/// The last `count` characters of a text, or all of it where it has fewer.
pub open spec fn tail(s: Seq<char>, count: nat) -> Seq<char> {
    if s.len() <= count {
        s
    } else {
        s.subrange(s.len() - count, s.len() as int)
    }
}

/// The last `count` characters of a text, or all of it where it has fewer.
pub fn tail_chars(text: &str, count: usize) -> (out: String)
    ensures
        out@ == tail(text@, count as nat),
{
    let chars = chars_of(text);
    if chars.len() <= count {
        return text_of(&chars);
    }
    let mut kept: Vec<char> = Vec::new();
    let start: usize = chars.len() - count;
    let mut i: usize = start;
    while i < chars.len()
        invariant
            start <= i <= chars.len(),
            kept@ == chars@.subrange(start as int, i as int),
        decreases chars.len() - i,
    {
        kept.push(chars[i]);
        proof {
            assert(chars@.subrange(start as int, i + 1) =~= chars@.subrange(
                start as int,
                i as int,
            ).push(chars@[i as int]));
        }
        i += 1;
    }
    text_of(&kept)
}

/// The character that stands for a decimal digit.
pub open spec fn digit(d: nat) -> char {
    if d == 0 {
        '0'
    } else if d == 1 {
        '1'
    } else if d == 2 {
        '2'
    } else if d == 3 {
        '3'
    } else if d == 4 {
        '4'
    } else if d == 5 {
        '5'
    } else if d == 6 {
        '6'
    } else if d == 7 {
        '7'
    } else if d == 8 {
        '8'
    } else {
        '9'
    }
}

/// The decimal numeral of a natural number, without leading zeros.
pub open spec fn decimal(n: nat) -> Seq<char>
    decreases n,
{
    if n < 10 {
        seq![digit(n)]
    } else {
        decimal(n / 10).push(digit(n % 10))
    }
}

fn digit_char(d: usize) -> (c: char)
    requires
        d < 10,
    ensures
        c == digit(d as nat),
{
    if d == 0 {
        '0'
    } else if d == 1 {
        '1'
    } else if d == 2 {
        '2'
    } else if d == 3 {
        '3'
    } else if d == 4 {
        '4'
    } else if d == 5 {
        '5'
    } else if d == 6 {
        '6'
    } else if d == 7 {
        '7'
    } else if d == 8 {
        '8'
    } else {
        '9'
    }
}

/// Writes a number as a decimal numeral.
pub fn decimal_text(n: usize) -> (text: String)
    ensures
        text@ == decimal(n as nat),
    decreases n,
{
    if n < 10 {
        let mut text = String::new();
        push_char(&mut text, digit_char(n));
        text
    } else {
        let mut text = decimal_text(n / 10);
        push_char(&mut text, digit_char(n % 10));
        text
    }
}

} // verus!
