//! A program's source: integers in decimal, separated by commas.

use vstd::prelude::*;
use vstd::string::*;
use std::num::ParseIntError;
use crate::errors::ParseError;
use crate::text::{decimal, digit, digits};

verus! {

/// The pieces of a text between its commas, in order: one more than it has
/// commas, and empty where two commas meet or the text begins or ends with
/// one.
pub open spec fn tokens(text: Seq<char>) -> Seq<Seq<char>>
    decreases text.len(),
{
    if text.len() == 0 {
        seq![Seq::empty()]
    } else {
        let before = tokens(text.drop_last());
        if text.last() == ',' {
            before.push(Seq::empty())
        } else {
            before.update(before.len() - 1, before.last().push(text.last()))
        }
    }
}

/// A text without the newlines at its two ends.
pub open spec fn strip_newlines(text: Seq<char>) -> Seq<char>
    decreases text.len(),
{
    if text.len() > 0 && text[0] == '\n' {
        strip_newlines(text.skip(1))
    } else if text.len() > 0 && text.last() == '\n' {
        strip_newlines(text.drop_last())
    } else {
        text
    }
}

/// The value of a decimal digit.
pub open spec fn digit_value(c: char) -> Option<int> {
    if c == '0' {
        Some(0)
    } else if c == '1' {
        Some(1)
    } else if c == '2' {
        Some(2)
    } else if c == '3' {
        Some(3)
    } else if c == '4' {
        Some(4)
    } else if c == '5' {
        Some(5)
    } else if c == '6' {
        Some(6)
    } else if c == '7' {
        Some(7)
    } else if c == '8' {
        Some(8)
    } else if c == '9' {
        Some(9)
    } else {
        None
    }
}

/// The number that one or more decimal digits spell out; `None` for an empty
/// text and for one that holds anything else.
pub open spec fn natural(text: Seq<char>) -> Option<int>
    decreases text.len(),
{
    if text.len() == 0 {
        None
    } else if text.len() == 1 {
        digit_value(text[0])
    } else {
        match (natural(text.drop_last()), digit_value(text.last())) {
            (Some(high), Some(low)) => Some(10 * high + low),
            _ => None,
        }
    }
}

/// The memory word that a token spells out: one sign at most, `+` or `-`, then
/// one or more decimal digits, the whole within the range of a word.
pub open spec fn number(token: Seq<char>) -> Option<i32> {
    let signed = token.len() > 0 && (token[0] == '-' || token[0] == '+');
    let magnitude = natural(
        if signed {
            token.skip(1)
        } else {
            token
        },
    );
    match magnitude {
        None => None,
        Some(n) => {
            let value = if token[0] == '-' {
                -n
            } else {
                n
            };
            if -0x8000_0000 <= value <= 0x7fff_ffff {
                Some(value as i32)
            } else {
                None
            }
        },
    }
}

/// The words that a list of tokens spells out, or the first token that spells
/// out none.
pub open spec fn words_of(tokens: Seq<Seq<char>>) -> Result<Seq<i32>, Seq<char>>
    decreases tokens.len(),
{
    if tokens.len() == 0 {
        Ok(Seq::empty())
    } else {
        match words_of(tokens.drop_last()) {
            Err(token) => Err(token),
            Ok(words) => match number(tokens.last()) {
                None => Err(tokens.last()),
                Some(word) => Ok(words.push(word)),
            },
        }
    }
}

proof fn lemma_words_fail(tokens: Seq<Seq<char>>, failed: int)
    requires
        0 <= failed <= tokens.len(),
        words_of(tokens.take(failed)) is Err,
    ensures
        words_of(tokens) == words_of(tokens.take(failed)),
    decreases tokens.len(),
{
    if failed < tokens.len() {
        assert(tokens.drop_last().take(failed) =~= tokens.take(failed));
        lemma_words_fail(tokens.drop_last(), failed);
    } else {
        assert(tokens.take(failed) =~= tokens);
    }
}

proof fn lemma_digits_read_back(n: nat)
    ensures
        digits(n).len() > 0,
        digit_value(digits(n)[0]) is Some,
        natural(digits(n)) == Some(n as int),
    decreases n,
{
    if n < 10 {
        assert(digit_value(digit(n as int)) == Some(n as int));
    } else {
        lemma_digits_read_back(n / 10);
        let text = digits(n);
        assert(text.drop_last() =~= digits(n / 10));
        assert(text[0] == digits(n / 10)[0]);
        assert(digit_value(digit((n % 10) as int)) == Some((n % 10) as int));
    }
}

/// What the library writes it reads back: the decimal text of a word spells
/// out that word.
pub proof fn lemma_written_word_reads_back(word: i32)
    ensures
        number(decimal(word as int)) == Some(word),
{
    let text = decimal(word as int);
    if word < 0 {
        let magnitude = (-word) as nat;
        lemma_digits_read_back(magnitude);
        assert(text[0] == '-');
        assert(text.skip(1) =~= digits(magnitude));
    } else {
        lemma_digits_read_back(word as nat);
    }
}

#[verifier::external_type_specification]
#[verifier::external_body]
pub struct ExParseIntError(ParseIntError);

/// `str::split` with a comma as the pattern, its pieces collected in order.
/// std documents that the pieces are the substrings between the matches of
/// the pattern: that is `tokens`.
#[verifier::external_body]
fn split_commas(raw: &str) -> (pieces: Vec<&str>)
    ensures
        pieces@.len() == tokens(raw@).len(),
        forall|i: int| 0 <= i < pieces@.len() ==> (#[trigger] pieces@[i])@ == tokens(raw@)[i],
{
    raw.split(',').collect()
}

/// `str::parse::<i32>`, which std documents to take an optional sign and then
/// decimal digits, and to fail on an empty text, on any other character and on
/// a value outside the type's range: it gives a word exactly where `number`
/// does, and that word.
#[verifier::external_body]
pub(crate) fn parse_word(token: &str) -> (r: Result<i32, ParseIntError>)
    ensures
        match r {
            Ok(word) => number(token@) == Some(word),
            Err(_) => number(token@) is None,
        },
{
    token.parse::<i32>()
}

/// `ParseIntError`'s text, by its `Display`. Nothing is claimed of it.
#[verifier::external_body]
pub(crate) fn failure_text(e: &ParseIntError) -> (s: String) {
    e.to_string()
}

/// `str::trim_matches` with a newline as the pattern, which std documents to
/// give the text with every match of the pattern at its start and at its end
/// taken off.
#[verifier::external_body]
fn trim_newlines(text: &str) -> (inner: &str)
    ensures
        inner@ == strip_newlines(text@),
{
    text.trim_matches('\n')
}

/// Reads a program as a file holds it: the source, with newlines before and
/// after it that do not count.
pub fn parse_program(text: &str) -> (r: Result<Vec<i32>, ParseError>)
    ensures
        match words_of(tokens(strip_newlines(text@))) {
            Ok(words) => match r {
                Ok(program) => program@ == words,
                Err(_) => false,
            },
            Err(token) => match r {
                Ok(_) => false,
                Err(e) => e@.token == token,
            },
        },
{
    parse_raw(trim_newlines(text))
}

/// Reads a program's source: the words that its comma-separated tokens spell
/// out, in order. The first token that spells out no word fails the whole,
/// and the error names it.
pub fn parse_raw(raw: &str) -> (r: Result<Vec<i32>, ParseError>)
    ensures
        match words_of(tokens(raw@)) {
            Ok(words) => match r {
                Ok(program) => program@ == words,
                Err(_) => false,
            },
            Err(token) => match r {
                Ok(_) => false,
                Err(e) => e@.token == token,
            },
        },
{
    let pieces = split_commas(raw);
    let ghost all = tokens(raw@);
    let mut input: Vec<i32> = Vec::new();
    let mut i: usize = 0;
    assert(all.take(0) =~= Seq::<Seq<char>>::empty());
    while i < pieces.len()
        invariant
            i <= pieces.len(),
            all == tokens(raw@),
            pieces@.len() == all.len(),
            forall|k: int| 0 <= k < pieces@.len() ==> (#[trigger] pieces@[k])@ == all[k],
            words_of(all.take(i as int)) == Ok::<Seq<i32>, Seq<char>>(input@),
        decreases pieces.len() - i,
    {
        let token = pieces[i];
        assert(all.take(i + 1).drop_last() =~= all.take(i as int));
        assert(all.take(i + 1).last() == token@);
        match parse_word(token) {
            Ok(n) => input.push(n),
            Err(e) => {
                proof {
                    lemma_words_fail(all, i + 1);
                }
                return Err(ParseError::new(failure_text(&e), token.to_owned()));
            },
        }
        i += 1;
    }
    assert(all.take(i as int) =~= all);
    Ok(input)
}

} // verus!
