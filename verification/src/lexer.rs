//! Character-level scanning of GW-BASIC source text: a character stream
//! with one character of push-back, and the recognizers for words, string
//! literals, numbers and punctuation.

use vstd::prelude::*;
use crate::text::{alphabetic, chars_of, digit_value, is_alphabetic, is_decimal_digit, is_white_space, is_whitespace, push_char};
use crate::tokens::{keyword_map, GwBasicToken, GwTokenInfo};
use crate::text::{ascii_upper_seq, to_ascii_upper, string_from_chars};

verus! {

/// A stream of characters with room for one pushed-back character.
///
/// Its view is the sequence of characters it will hand out: the pushed-back
/// character (if any) followed by the unread rest of the text.
pub struct PushbackCharsIterator {
    chars: Vec<char>,
    position: usize,
    pushed_back: Option<char>,
}

impl View for PushbackCharsIterator {
    type V = Seq<char>;

    closed spec fn view(&self) -> Seq<char> {
        match self.pushed_back {
            Some(c) => seq![c] + self.unread(),
            None => self.unread(),
        }
    }
}

impl PushbackCharsIterator {
    #[verifier::type_invariant]
    closed spec fn position_in_range(&self) -> bool {
        self.position <= self.chars@.len()
    }

    /// The characters of the text not yet read (the pushed-back slot aside).
    pub closed spec fn unread(&self) -> Seq<char> {
        self.chars@.skip(self.position as int)
    }

    /// Whether a pushed-back character is waiting.
    pub closed spec fn has_pushed_back(&self) -> bool {
        self.pushed_back is Some
    }

    /// A measure that every read lowers: two per unread character, one for
    /// a waiting pushed-back character.
    pub open spec fn measure(&self) -> nat {
        (2 * self.unread().len() + if self.has_pushed_back() {
            1int
        } else {
            0int
        }) as nat
    }

    /// The stream holds the unread characters and the pushed-back one.
    pub proof fn lemma_view_len(&self)
        ensures
            self@.len() == self.unread().len() + if self.has_pushed_back() {
                1int
            } else {
                0int
            },
    {
    }

    /// A stream over the characters of `text`.
    pub fn new(text: &str) -> (it: PushbackCharsIterator)
        ensures
            it@ == text@,
            !it.has_pushed_back(),
    {
        let chars = chars_of(text);
        let it = PushbackCharsIterator { chars, position: 0, pushed_back: None };
        assert(it.chars@.skip(0) == it.chars@);
        it
    }

    /// Hands out the next character: the pushed-back one if there is one,
    /// else the next one of the text.
    pub fn next(&mut self) -> (r: Option<char>)
        ensures
            old(self)@.len() == 0 ==> r is None && final(self)@ == old(self)@,
            old(self)@.len() > 0 ==> r == Some(old(self)@[0]) && final(self)@
                == old(self)@.drop_first(),
            !final(self).has_pushed_back(),
            old(self).has_pushed_back() ==> final(self).unread() == old(self).unread(),
            old(self)@.len() > 0 ==> final(self).measure() < old(self).measure(),
            final(self).measure() <= old(self).measure(),
    {
        proof {
            use_type_invariant(&*self);
        }
        if let Some(pushed) = self.pushed_back {
            self.pushed_back = None;
            Some(pushed)
        } else if self.position < self.chars.len() {
            let c = self.chars[self.position];
            self.position = self.position + 1;
            proof {
                assert(self.chars@.skip(self.position as int) == old(self).chars@.skip(
                    old(self).position as int,
                ).drop_first());
            }
            Some(c)
        } else {
            None
        }
    }

    /// Puts `char_to_push` back in front of the stream, replacing any
    /// character already waiting there.
    pub fn push_back(&mut self, char_to_push: char)
        ensures
            final(self)@ == seq![char_to_push] + old(self).unread(),
            !old(self).has_pushed_back() ==> final(self)@ == seq![char_to_push] + old(self)@,
            final(self).unread() == old(self).unread(),
            final(self).has_pushed_back(),
            final(self).measure() == 2 * old(self).unread().len() + 1,
    {
        proof {
            use_type_invariant(&*self);
        }
        self.pushed_back = Some(char_to_push);
    }
}

/// A character pushed back onto a stream `s` with none waiting is the
/// next one read, and reading it leaves the stream `s` again: with the
/// contracts of `push_back` and `next`, pushing back and then reading
/// restores the stream.
pub proof fn lemma_push_back_then_next(s: Seq<char>, c: char)
    ensures
        (seq![c] + s).len() > 0,
        (seq![c] + s)[0] == c,
        (seq![c] + s).drop_first() == s,
{
    assert((seq![c] + s).drop_first() =~= s);
}

/// Number of leading white space characters of `s`.
pub open spec fn whitespace_prefix_len(s: Seq<char>) -> nat
    decreases s.len(),
{
    if s.len() > 0 && is_white_space(s[0]) {
        1 + whitespace_prefix_len(s.drop_first())
    } else {
        0
    }
}

/// Skips white space: afterwards the stream starts with the first
/// character that is not white space.
pub fn consume_whitespace(iterator: &mut PushbackCharsIterator)
    ensures
        final(iterator)@ == old(iterator)@.skip(whitespace_prefix_len(old(iterator)@) as int),
        final(iterator).measure() <= old(iterator).measure(),
{
    loop
        invariant
            whitespace_prefix_len(old(iterator)@) == whitespace_prefix_len(iterator@) + (
            old(iterator)@.len() - iterator@.len()),
            iterator@ == old(iterator)@.skip(old(iterator)@.len() - iterator@.len()),
            iterator@.len() <= old(iterator)@.len(),
            iterator.measure() <= old(iterator).measure(),
        ensures
            iterator@ == old(iterator)@.skip(whitespace_prefix_len(old(iterator)@) as int),
            iterator.measure() <= old(iterator).measure(),
        decreases iterator.measure(),
    {
        let ghost before = iterator@;
        if let Some(c) = iterator.next() {
            if !is_whitespace(c) {
                iterator.push_back(c);
                proof {
                    iterator.lemma_view_len();
                    assert(iterator@ == before);
                }
                break;
            }
            proof {
                assert(iterator@ == old(iterator)@.skip(old(iterator)@.len() - iterator@.len()));
            }
        } else {
            break;
        }
    }
}

/// Takes the next character if it is `c`; otherwise leaves the stream as
/// it was.
pub fn recognize_specific_char(iterator: &mut PushbackCharsIterator, c: char) -> (r: bool)
    ensures
        r == (old(iterator)@.len() > 0 && old(iterator)@[0] == c),
        r ==> final(iterator)@ == old(iterator)@.drop_first(),
        !r ==> final(iterator)@ == old(iterator)@,
        final(iterator).measure() <= old(iterator).measure(),
        r ==> final(iterator).measure() < old(iterator).measure(),
{
    if let Some(next_char) = iterator.next() {
        let result = next_char == c;
        if !result {
            iterator.push_back(next_char);
        }
        result
    } else {
        false
    }
}

/// Whether the stream is exhausted; the stream is left as it was.
pub fn recognize_eol(iterator: &mut PushbackCharsIterator) -> (r: bool)
    ensures
        r == (old(iterator)@.len() == 0),
        final(iterator)@ == old(iterator)@,
        final(iterator).measure() <= old(iterator).measure(),
{
    if let Some(next_char) = iterator.next() {
        iterator.push_back(next_char);
        false
    } else {
        true
    }
}

/// Whether `c` may continue an identifier: a letter or a decimal digit.
pub open spec fn is_word_char(c: char) -> bool {
    alphabetic(c) || is_decimal_digit(c)
}

/// How many characters after the first letter belong to the word that
/// starts `s`: letters and digits, and a closing `$` that ends the word.
pub open spec fn word_tail_len(s: Seq<char>) -> nat
    decreases s.len(),
{
    if s.len() == 0 {
        0
    } else if is_word_char(s[0]) {
        1 + word_tail_len(s.drop_first())
    } else if s[0] == '$' {
        1
    } else {
        0
    }
}

/// Length of the identifier or keyword at the start of `s` (0 when `s`
/// does not start with a letter).
pub open spec fn word_len(s: Seq<char>) -> nat {
    if s.len() > 0 && alphabetic(s[0]) {
        1 + word_tail_len(s.drop_first())
    } else {
        0
    }
}

/// The rest of a word is no longer than the text it is read from.
pub proof fn lemma_word_tail_len_bound(s: Seq<char>)
    ensures
        word_tail_len(s) <= s.len(),
    decreases s.len(),
{
    if s.len() > 0 {
        lemma_word_tail_len_bound(s.drop_first());
    }
}

/// Reads a word: a letter followed by letters and digits, optionally ended
/// by `$` (which belongs to the word).
pub fn recognize_word(iterator: &mut PushbackCharsIterator) -> (r: Option<String>)
    ensures
        word_len(old(iterator)@) == 0 ==> r is None && final(iterator)@ == old(iterator)@,
        word_len(old(iterator)@) > 0 ==> r is Some && r->0@ == old(iterator)@.take(
            word_len(old(iterator)@) as int,
        ) && final(iterator)@ == old(iterator)@.skip(word_len(old(iterator)@) as int),
        final(iterator).measure() <= old(iterator).measure(),
        r is Some ==> final(iterator).measure() < old(iterator).measure(),
{
    let ghost s = iterator@;
    proof {
        if s.len() > 0 {
            lemma_word_tail_len_bound(s.drop_first());
        }
    }
    if let Some(next_char) = iterator.next() {
        if is_alphabetic(next_char) {
            let mut result = String::new();
            push_char(&mut result, next_char);
            assert(result@ == s.take(1));
            loop
                invariant
                    1 <= result@.len() <= s.len(),
                    result@ == s.take(result@.len() as int),
                    iterator@ == s.skip(result@.len() as int),
                    word_len(s) == result@.len() + word_tail_len(iterator@),
                    alphabetic(s[0]),
                    s == old(iterator)@,
                    iterator.measure() < old(iterator).measure(),
                decreases iterator.measure(),
            {
                let ghost before = iterator@;
                let ghost k: int = result@.len() as int;
                if let Some(next_char) = iterator.next() {
                    assert(s.skip(k).drop_first() == s.skip(k + 1));
                    assert(s.take(k + 1) == s.take(k).push(next_char));
                    if is_alphabetic(next_char) || ('0' <= next_char && next_char <= '9') {
                        push_char(&mut result, next_char);
                    } else if next_char == '$' {
                        push_char(&mut result, next_char);
                        return Some(result);
                    } else {
                        iterator.push_back(next_char);
                        proof {
                            iterator.lemma_view_len();
                            assert(iterator@ == before);
                        }
                        return Some(result);
                    }
                } else {
                    return Some(result);
                }
            }
        } else {
            iterator.push_back(next_char);
            proof {
                iterator.lemma_view_len();
                assert(iterator@ == s);
            }
        }
    }
    None
}

/// Number of characters of `s` before its first double quote.
pub open spec fn quote_free_prefix_len(s: Seq<char>) -> nat
    decreases s.len(),
{
    if s.len() == 0 || s[0] == '"' {
        0
    } else {
        1 + quote_free_prefix_len(s.drop_first())
    }
}

/// The characters before the first `"` hold no `"`, and the first `"`
/// ends them.
pub proof fn lemma_quote_free_prefix_len(s: Seq<char>)
    ensures
        quote_free_prefix_len(s) <= s.len(),
        quote_free_prefix_len(s) < s.len() ==> s[quote_free_prefix_len(s) as int] == '"',
        forall|i: int| 0 <= i < quote_free_prefix_len(s) ==> s[i] != '"',
    decreases s.len(),
{
    if s.len() > 0 && s[0] != '"' {
        lemma_quote_free_prefix_len(s.drop_first());
        assert forall|i: int| 0 <= i < quote_free_prefix_len(s) implies s[i] != '"' by {
            if i > 0 {
                assert(s[i] == s.drop_first()[i - 1]);
            }
        }
    }
}

/// The text of the string literal that starts `s` (between the opening
/// quote and the closing quote or the end of the text).
pub open spec fn string_literal_body(s: Seq<char>) -> Seq<char> {
    s.drop_first().take(quote_free_prefix_len(s.drop_first()) as int)
}

/// How many characters the string literal that starts `s` takes: the
/// quotes and the text between them; an unterminated literal runs to the
/// end of the text.
pub open spec fn string_literal_len(s: Seq<char>) -> nat {
    let body = quote_free_prefix_len(s.drop_first());
    if body < s.drop_first().len() {
        body + 2
    } else {
        body + 1
    }
}

/// Reads a string literal: a double quote, then everything up to the next
/// double quote (which is consumed but not part of the result) or the end
/// of the text.
pub fn recognize_string_literal(iterator: &mut PushbackCharsIterator) -> (r: Option<String>)
    ensures
        !(old(iterator)@.len() > 0 && old(iterator)@[0] == '"') ==> r is None
            && final(iterator)@ == old(iterator)@,
        old(iterator)@.len() > 0 && old(iterator)@[0] == '"' ==> r is Some && r->0@
            == string_literal_body(old(iterator)@) && final(iterator)@ == old(iterator)@.skip(
            string_literal_len(old(iterator)@) as int,
        ),
        final(iterator).measure() <= old(iterator).measure(),
        r is Some ==> final(iterator).measure() < old(iterator).measure(),
{
    let ghost s = iterator@;
    if let Some(next_char) = iterator.next() {
        if next_char == '"' {
            let ghost t = s.drop_first();
            proof {
                lemma_quote_free_prefix_len(t);
            }
            let mut result = String::new();
            loop
                invariant
                    result@.len() <= quote_free_prefix_len(t),
                    result@ == t.take(result@.len() as int),
                    iterator@ == t.skip(result@.len() as int),
                    quote_free_prefix_len(t) <= t.len(),
                    quote_free_prefix_len(t) < t.len() ==> t[quote_free_prefix_len(t) as int]
                        == '"',
                    forall|i: int| 0 <= i < quote_free_prefix_len(t) ==> t[i] != '"',
                    s.len() > 0 && s[0] == '"' && t == s.drop_first(),
                    s == old(iterator)@,
                    iterator.measure() < old(iterator).measure(),
                decreases iterator.measure(),
            {
                let ghost k: int = result@.len() as int;
                if let Some(next_char) = iterator.next() {
                    assert(t.skip(k).drop_first() == t.skip(k + 1));
                    if next_char == '"' {
                        assert(k == quote_free_prefix_len(t));
                        assert(s.skip(k + 2) == t.skip(k + 1));
                        return Some(result);
                    }
                    assert(t.take(k + 1) == t.take(k).push(next_char));
                    push_char(&mut result, next_char);
                } else {
                    assert(k == t.len());
                    assert(s.skip(k + 1) == t.skip(k));
                    return Some(result);
                }
            }
        } else {
            iterator.push_back(next_char);
            proof {
                iterator.lemma_view_len();
                assert(iterator@ == s);
            }
        }
    }
    None
}

/// A lexical token of GW-BASIC source text.
///
/// A number with a fractional part or an exponent is kept as the text the
/// scanner built for it (a well-formed decimal floating-point numeral),
/// for the evaluator to turn into a floating-point value.
#[derive(Debug)]
pub enum GwToken {
    Keyword(GwBasicToken),
    Identifier(String),
    String(String),
    Integer(i16),
    Double(String),
    Comma,
    Colon,
}

/// The mathematical value of a token.
pub enum TokenValue {
    Keyword(GwBasicToken),
    Identifier(Seq<char>),
    String(Seq<char>),
    Integer(i16),
    Double(Seq<char>),
    Comma,
    Colon,
}

impl View for GwToken {
    type V = TokenValue;

    open spec fn view(&self) -> TokenValue {
        match self {
            GwToken::Keyword(k) => TokenValue::Keyword(*k),
            GwToken::Identifier(s) => TokenValue::Identifier(s@),
            GwToken::String(s) => TokenValue::String(s@),
            GwToken::Integer(i) => TokenValue::Integer(*i),
            GwToken::Double(s) => TokenValue::Double(s@),
            GwToken::Comma => TokenValue::Comma,
            GwToken::Colon => TokenValue::Colon,
        }
    }
}

/// The text the number scanner builds from the characters `s` that follow
/// the first character of a number, and how many of them it takes.
/// Digits are taken; one `.` is taken while no dot has been seen; an `e`
/// or `E` is taken (preceded by an inserted `.0` when no dot has been
/// seen) together with a `-` right after it; anything else ends the number.
pub open spec fn number_scan(s: Seq<char>, has_dot: bool) -> (Seq<char>, nat)
    decreases s.len(),
{
    if s.len() == 0 {
        (seq![], 0)
    } else if is_decimal_digit(s[0]) {
        let r = number_scan(s.drop_first(), has_dot);
        (seq![s[0]] + r.0, r.1 + 1)
    } else if s[0] == '.' && !has_dot {
        let r = number_scan(s.drop_first(), true);
        (seq!['.'] + r.0, r.1 + 1)
    } else if s[0] == 'e' || s[0] == 'E' {
        let head = if has_dot {
            seq![s[0]]
        } else {
            seq!['.', '0', s[0]]
        };
        let t = s.drop_first();
        if t.len() > 0 && t[0] == '-' {
            let r = number_scan(t.drop_first(), true);
            (head + seq!['-'] + r.0, r.1 + 2)
        } else {
            let r = number_scan(t, true);
            (head + r.0, r.1 + 1)
        }
    } else {
        (seq![], 0)
    }
}

/// A number is no longer than the text it is read from.
pub proof fn lemma_number_scan_len(s: Seq<char>, has_dot: bool)
    ensures
        number_scan(s, has_dot).1 <= s.len(),
    decreases s.len(),
{
    if s.len() > 0 {
        lemma_number_scan_len(s.drop_first(), has_dot);
        lemma_number_scan_len(s.drop_first(), true);
        if s.drop_first().len() > 0 {
            lemma_number_scan_len(s.drop_first().drop_first(), true);
        }
    }
}

/// Whether `s` starts a number: a digit or a dot.
pub open spec fn starts_number(s: Seq<char>) -> bool {
    s.len() > 0 && (is_decimal_digit(s[0]) || s[0] == '.')
}

/// The text of the number that starts `s`.
pub open spec fn number_text(s: Seq<char>) -> Seq<char> {
    seq![s[0]] + number_scan(s.drop_first(), s[0] == '.').0
}

/// How many characters the number that starts `s` takes.
pub open spec fn number_len(s: Seq<char>) -> nat {
    1 + number_scan(s.drop_first(), s[0] == '.').1
}

/// Number of consecutive decimal digits of `s` from position `i` on.
pub open spec fn digit_run(s: Seq<char>, i: int) -> nat
    decreases s.len() - i,
{
    if 0 <= i < s.len() && is_decimal_digit(s[i]) {
        1 + digit_run(s, i + 1)
    } else {
        0
    }
}

/// Whether `t` is a decimal floating-point numeral without sign: digits
/// with at most one dot and at least one digit, then optionally `e` or `E`,
/// an optional sign and at least one digit, and nothing else.
pub open spec fn float_numeral(t: Seq<char>) -> bool {
    let a: int = digit_run(t, 0) as int;
    let has_dot = a < t.len() && t[a] == '.';
    let b: int = if has_dot {
        digit_run(t, a + 1) as int
    } else {
        0
    };
    let p: int = if has_dot {
        a + 1 + b
    } else {
        a
    };
    &&& a + b > 0
    &&& (p == t.len() || (p < t.len() && (t[p] == 'e' || t[p] == 'E') && {
        let q: int = if p + 1 < t.len() && (t[p + 1] == '-' || t[p + 1] == '+') {
            p + 2
        } else {
            p + 1
        };
        digit_run(t, q) > 0 && q + digit_run(t, q) == t.len()
    }))
}

/// The value of a string of decimal digits.
pub open spec fn decimal_value(s: Seq<char>) -> int
    decreases s.len(),
{
    if s.len() == 0 {
        0
    } else {
        decimal_value(s.drop_last()) * 10 + digit_value(s.last())
    }
}

/// The token for the text of a scanned number: with a dot it is a
/// floating-point numeral (when well formed); without one it is an
/// integer (when it fits in `i16`).
pub open spec fn numeric_token(t: Seq<char>) -> Option<TokenValue> {
    if t.contains('.') {
        if float_numeral(t) {
            Some(TokenValue::Double(t))
        } else {
            None
        }
    } else if decimal_value(t) <= 32767 {
        Some(TokenValue::Integer(decimal_value(t) as i16))
    } else {
        None
    }
}

/// Texts the number scanner can build: a digit or a dot first, then
/// digits, dots, exponent letters and minus signs, and only digits when
/// there is no dot.
pub open spec fn scanned_number_shape(t: Seq<char>) -> bool {
    &&& t.len() > 0
    &&& (is_decimal_digit(t[0]) || t[0] == '.')
    &&& forall|i: int|
        0 <= i < t.len() ==> (is_decimal_digit(t[i]) || t[i] == '.' || t[i] == 'e' || t[i] == 'E'
            || t[i] == '-')
    &&& !t.contains('.') ==> forall|i: int| 0 <= i < t.len() ==> is_decimal_digit(t[i])
}

fn digit_run_at(t: &Vec<char>, i: usize) -> (n: usize)
    requires
        i <= t@.len(),
    ensures
        n == digit_run(t@, i as int),
        i + n <= t@.len(),
{
    let mut j = i;
    while j < t.len() && '0' <= t[j] && t[j] <= '9'
        invariant
            i <= j <= t@.len(),
            digit_run(t@, i as int) == (j - i) + digit_run(t@, j as int),
        decreases t@.len() - j,
    {
        j = j + 1;
    }
    j - i
}

fn is_float_numeral(t: &Vec<char>) -> (r: bool)
    ensures
        r == float_numeral(t@),
{
    let a = digit_run_at(t, 0);
    let has_dot = a < t.len() && t[a] == '.';
    let b = if has_dot {
        digit_run_at(t, a + 1)
    } else {
        0
    };
    let p = if has_dot {
        a + 1 + b
    } else {
        a
    };
    if a + b == 0 {
        return false;
    }
    if p == t.len() {
        return true;
    }
    if !(t[p] == 'e' || t[p] == 'E') {
        return false;
    }
    let q = if p + 1 < t.len() && (t[p + 1] == '-' || t[p + 1] == '+') {
        p + 2
    } else {
        p + 1
    };
    let c = digit_run_at(t, q);
    c > 0 && q + c == t.len()
}

/// A digit string has a value of at least zero.
proof fn lemma_decimal_value_nonneg(s: Seq<char>)
    requires
        forall|i: int| 0 <= i < s.len() ==> is_decimal_digit(s[i]),
    ensures
        decimal_value(s) >= 0,
    decreases s.len(),
{
    if s.len() > 0 {
        lemma_decimal_value_nonneg(s.drop_last());
    }
}

/// Converts the text of a scanned number into its token.
fn convert_numeric_string(tmp_string: &Vec<char>) -> (r: Option<GwToken>)
    requires
        scanned_number_shape(tmp_string@),
    ensures
        r is Some <==> numeric_token(tmp_string@) is Some,
        r is Some ==> r->0@ == numeric_token(tmp_string@)->0,
{
    let t = tmp_string;
    let mut i: usize = 0;
    let mut has_dot = false;
    while i < t.len()
        invariant
            i <= t@.len(),
            has_dot == t@.take(i as int).contains('.'),
        decreases t@.len() - i,
    {
        if t[i] == '.' {
            has_dot = true;
        }
        proof {
            assert(t@.take(i + 1) == t@.take(i as int).push(t@[i as int]));
            if t@[i as int] == '.' {
                assert(t@.take(i + 1)[i as int] == '.');
            }
            if t@.take(i as int).contains('.') {
                let k = choose|k: int| 0 <= k < i && #[trigger] t@.take(i as int)[k] == '.';
                assert(t@.take(i + 1)[k] == '.');
            }
            if t@.take(i + 1).contains('.') && t@[i as int] != '.' {
                let k = choose|k: int| 0 <= k < i + 1 && #[trigger] t@.take(i + 1)[k] == '.';
                assert(t@.take(i as int)[k] == '.');
            }
        }
        i = i + 1;
    }
    assert(t@.take(t@.len() as int) == t@);
    if has_dot {
        if is_float_numeral(t) {
            let text = crate::text::string_from_chars(t.as_slice());
            Some(GwToken::Double(text))
        } else {
            None
        }
    } else {
        let mut value: u32 = 0;
        let mut j: usize = 0;
        while j < t.len()
            invariant
                j <= t@.len(),
                forall|k: int| 0 <= k < t@.len() ==> is_decimal_digit(t@[k]),
                value as int == decimal_value(t@.take(j as int)),
                value <= 32767,
                !t@.contains('.'),
                t@ == tmp_string@,
            decreases t@.len() - j,
        {
            proof {
                assert(t@.take(j + 1).drop_last() == t@.take(j as int));
                lemma_decimal_value_nonneg(t@.skip(j + 1));
                lemma_decimal_tail_bound(t@, j as int);
            }
            let d: u32 = (t[j] as u32) - ('0' as u32);
            let next = value * 10 + d;
            assert(decimal_value(t@.take(j + 1)) == next);
            if next > 32767 {
                assert(decimal_value(t@) > 32767);
                return None;
            }
            value = next;
            j = j + 1;
        }
        assert(t@.take(t@.len() as int) == t@);
        Some(GwToken::Integer(value as i16))
    }
}

/// Extending a digit string on the right never lowers its value, so once
/// a prefix is too large the whole string is.
proof fn lemma_decimal_tail_bound(t: Seq<char>, j: int)
    requires
        0 <= j < t.len(),
        forall|k: int| 0 <= k < t.len() ==> is_decimal_digit(t[k]),
    ensures
        decimal_value(t) >= decimal_value(t.take(j + 1)),
    decreases t.len() - j,
{
    if j + 1 < t.len() {
        lemma_decimal_tail_bound(t, j + 1);
        assert(t.take(j + 2).drop_last() == t.take(j + 1));
        lemma_decimal_value_nonneg(t.take(j + 1));
    } else {
        assert(t.take(j + 1) == t);
    }
}

/// Every character of a scanned number text is a digit, dot, exponent
/// letter or minus sign; without a dot, every one is a digit.
proof fn lemma_number_scan_shape(s: Seq<char>, has_dot: bool)
    ensures
        forall|i: int|
            0 <= i < number_scan(s, has_dot).0.len() ==> (is_decimal_digit(
                #[trigger] number_scan(s, has_dot).0[i],
            ) || number_scan(s, has_dot).0[i] == '.' || number_scan(s, has_dot).0[i] == 'e'
                || number_scan(s, has_dot).0[i] == 'E' || number_scan(s, has_dot).0[i] == '-'),
        !has_dot && !number_scan(s, has_dot).0.contains('.') ==> forall|i: int|
            0 <= i < number_scan(s, has_dot).0.len() ==> is_decimal_digit(
                #[trigger] number_scan(s, has_dot).0[i],
            ),
    decreases s.len(),
{
    if s.len() > 0 {
        let t = s.drop_first();
        lemma_number_scan_shape(t, has_dot);
        lemma_number_scan_shape(t, true);
        if t.len() > 0 {
            lemma_number_scan_shape(t.drop_first(), true);
        }
        let out = number_scan(s, has_dot).0;
        if is_decimal_digit(s[0]) {
            let r = number_scan(t, has_dot).0;
            assert(out == seq![s[0]] + r);
            assert forall|i: int| 0 <= i < out.len() implies (is_decimal_digit(out[i])
                || out[i] == '.' || out[i] == 'e' || out[i] == 'E' || out[i] == '-') by {
                if i > 0 {
                    assert(out[i] == r[i - 1]);
                }
            }
            if !has_dot && !out.contains('.') {
                assert(!r.contains('.')) by {
                    if r.contains('.') {
                        let k = choose|k: int| 0 <= k < r.len() && #[trigger] r[k] == '.';
                        assert(out[k + 1] == '.');
                    }
                }
                assert forall|i: int| 0 <= i < out.len() implies is_decimal_digit(out[i]) by {
                    if i > 0 {
                        assert(out[i] == r[i - 1]);
                    }
                }
            }
        } else if s[0] == '.' && !has_dot {
            let r = number_scan(t, true).0;
            assert(out == seq!['.'] + r);
            assert(out[0] == '.');
            assert forall|i: int| 0 <= i < out.len() implies (is_decimal_digit(out[i])
                || out[i] == '.' || out[i] == 'e' || out[i] == 'E' || out[i] == '-') by {
                if i > 0 {
                    assert(out[i] == r[i - 1]);
                }
            }
        } else if s[0] == 'e' || s[0] == 'E' {
            let head = if has_dot {
                seq![s[0]]
            } else {
                seq!['.', '0', s[0]]
            };
            if !has_dot {
                assert(out[0] == '.');
            }
            if t.len() > 0 && t[0] == '-' {
                let r = number_scan(t.drop_first(), true).0;
                assert(out == head + seq!['-'] + r);
                assert forall|i: int| 0 <= i < out.len() implies (is_decimal_digit(out[i])
                    || out[i] == '.' || out[i] == 'e' || out[i] == 'E' || out[i] == '-') by {
                    if i >= head.len() + 1 {
                        assert(out[i] == r[i - head.len() - 1]);
                    }
                }
            } else {
                let r = number_scan(t, true).0;
                assert(out == head + r);
                assert forall|i: int| 0 <= i < out.len() implies (is_decimal_digit(out[i])
                    || out[i] == '.' || out[i] == 'e' || out[i] == 'E' || out[i] == '-') by {
                    if i >= head.len() {
                        assert(out[i] == r[i - head.len()]);
                    }
                }
            }
        }
    }
}

/// The text of a number that the scanner reads has the shape of a number.
proof fn lemma_number_text_shape(s: Seq<char>)
    requires
        starts_number(s),
    ensures
        scanned_number_shape(number_text(s)),
{
    let t = s.drop_first();
    lemma_number_scan_shape(t, s[0] == '.');
    let r = number_scan(t, s[0] == '.').0;
    let out = number_text(s);
    assert(out == seq![s[0]] + r);
    assert forall|i: int| 0 <= i < out.len() implies (is_decimal_digit(out[i]) || out[i] == '.'
        || out[i] == 'e' || out[i] == 'E' || out[i] == '-') by {
        if i > 0 {
            assert(out[i] == r[i - 1]);
        }
    }
    if s[0] == '.' {
        assert(out[0] == '.');
    }
    if !out.contains('.') {
        assert(!r.contains('.')) by {
            if r.contains('.') {
                let k = choose|k: int| 0 <= k < r.len() && #[trigger] r[k] == '.';
                assert(out[k + 1] == '.');
            }
        }
        assert forall|i: int| 0 <= i < out.len() implies is_decimal_digit(out[i]) by {
            if i > 0 {
                assert(out[i] == r[i - 1]);
            }
        }
    }
}

/// Reads a number: a digit or a dot, then what `number_scan` takes. The
/// token is an integer for a text without a dot that fits in `i16`, a
/// floating-point numeral for a well-formed text with a dot, and nothing
/// otherwise (the characters of the number are consumed either way).
#[verifier::rlimit(40)]
pub fn recognize_float_number_str(iterator: &mut PushbackCharsIterator) -> (r: Option<GwToken>)
    ensures
        !starts_number(old(iterator)@) ==> r is None && final(iterator)@ == old(iterator)@,
        starts_number(old(iterator)@) ==> final(iterator)@ == old(iterator)@.skip(
            number_len(old(iterator)@) as int,
        ),
        starts_number(old(iterator)@) ==> (r is Some <==> numeric_token(
            number_text(old(iterator)@),
        ) is Some),
        r is Some ==> r->0@ == numeric_token(number_text(old(iterator)@))->0,
        final(iterator).measure() <= old(iterator).measure(),
        starts_number(old(iterator)@) ==> final(iterator).measure() < old(iterator).measure(),
{
    let ghost s = iterator@;
    if let Some(c) = iterator.next() {
        let mut has_dot = false;
        if ('0' <= c && c <= '9') || c == '.' {
            if c == '.' {
                has_dot = true;
            }
            let mut tmp_string: Vec<char> = Vec::new();
            tmp_string.push(c);
            proof {
                lemma_number_scan_len(s.drop_first(), c == '.');
            }
            loop
                invariant
                    starts_number(s),
                    s == old(iterator)@,
                    tmp_string@ + number_scan(iterator@, has_dot).0 == number_text(s),
                    number_scan(iterator@, has_dot).1 <= iterator@.len(),
                    iterator@ == s.skip(
                        number_len(s) - number_scan(iterator@, has_dot).1,
                    ),
                    number_len(s) - number_scan(iterator@, has_dot).1 >= 1,
                    number_len(s) <= s.len(),
                    iterator.measure() < old(iterator).measure(),
                ensures
                    tmp_string@ == number_text(s),
                    iterator@ == s.skip(number_len(s) as int),
                    iterator.measure() < old(iterator).measure(),
                decreases iterator.measure(),
            {
                let ghost before = iterator@;
                let ghost k: int = number_len(s) - number_scan(iterator@, has_dot).1;
                proof {
                    if k < s.len() {
                        assert(s.skip(k).drop_first() == s.skip(k + 1));
                    }
                    if k + 1 < s.len() {
                        assert(s.skip(k).drop_first().drop_first() == s.skip(k + 2));
                    }
                }
                let ghost dot_before = has_dot;
                proof {
                    lemma_number_scan_len(before, has_dot);
                    if before.len() > 0 {
                        lemma_number_scan_len(before.drop_first(), has_dot);
                        lemma_number_scan_len(before.drop_first(), true);
                        if before.drop_first().len() > 0 {
                            lemma_number_scan_len(before.drop_first().drop_first(), true);
                        }
                    }
                }
                if let Some(c) = iterator.next() {
                    if '0' <= c && c <= '9' {
                        tmp_string.push(c);
                        assert(number_scan(before, has_dot).1 == number_scan(iterator@, has_dot).1 + 1);
                        assert(iterator@ == s.skip(k + 1));
                        assert(tmp_string@ + number_scan(iterator@, has_dot).0 == number_text(s));
                    } else if c == '.' && !has_dot {
                        tmp_string.push(c);
                        has_dot = true;
                        assert(iterator@ == before.drop_first());
                        assert(number_scan(before, dot_before).1 == number_scan(iterator@, true).1 + 1);
                        assert(iterator@ == s.skip(k + 1));
                        assert(tmp_string@ + number_scan(iterator@, has_dot).0 == number_text(s));
                    } else {
                        if c == 'e' || c == 'E' {
                            if !has_dot {
                                has_dot = true;
                                tmp_string.push('.');
                                tmp_string.push('0');
                            }
                            tmp_string.push(c);
                            let ghost after_e = iterator@;
                            if let Some(chr) = iterator.next() {
                                if chr == '-' {
                                    tmp_string.push(chr);
                                    assert(iterator@ == before.drop_first().drop_first());
                                    assert(number_scan(before, dot_before).1 == number_scan(iterator@, true).1 + 2);
                                    assert(iterator@ == s.skip(k + 2));
                                } else {
                                    iterator.push_back(chr);
                                    proof {
                                        iterator.lemma_view_len();
                                        assert(iterator@ == after_e);
                                    }
                                    assert(number_scan(before, dot_before).1 == number_scan(iterator@, true).1 + 1);
                                    assert(iterator@ == s.skip(k + 1));
                                }
                            } else {
                                assert(number_scan(before, dot_before).1 == number_scan(iterator@, true).1 + 1);
                                assert(iterator@ == s.skip(k + 1));
                            }
                            assert(tmp_string@ + number_scan(iterator@, has_dot).0 == number_text(
                                s,
                            ));
                        } else {
                            iterator.push_back(c);
                            proof {
                                iterator.lemma_view_len();
                                assert(iterator@ == before);
                                assert(tmp_string@ == number_text(s));
                            }
                            break;
                        }
                    }
                } else {
                    assert(tmp_string@ == number_text(s));
                    break;
                }
            }
            proof {
                lemma_number_text_shape(s);
            }
            convert_numeric_string(&tmp_string)
        } else {
            iterator.push_back(c);
            proof {
                iterator.lemma_view_len();
                assert(iterator@ == s);
            }
            None
        }
    } else {
        None
    }
}

/// The token of a one-character operator or separator.
pub open spec fn single_char_token(c: char) -> Option<GwBasicToken> {
    if c == '+' {
        Some(GwBasicToken::PlusTok)
    } else if c == '^' {
        Some(GwBasicToken::PowOperatorTok)
    } else if c == '/' {
        Some(GwBasicToken::DivTok)
    } else if c == '-' {
        Some(GwBasicToken::MinusTok)
    } else if c == '=' {
        Some(GwBasicToken::EqlTok)
    } else if c == '*' {
        Some(GwBasicToken::TimesTok)
    } else if c == '(' {
        Some(GwBasicToken::LparTok)
    } else if c == ')' {
        Some(GwBasicToken::RparTok)
    } else if c == ':' {
        Some(GwBasicToken::ColonSeparatorTok)
    } else if c == ';' {
        Some(GwBasicToken::SemiColonSeparatorTok)
    } else if c == ',' {
        Some(GwBasicToken::CommaSeparatorTok)
    } else {
        None
    }
}

/// One step of the tokenizer: a token and the text after it, the end of
/// the text, or a character that starts no token.
pub enum LexStep {
    Token(TokenValue, Seq<char>),
    End(Seq<char>),
    Unrecognized,
}

/// The token at the start of `s` when `s` starts neither a word nor a
/// number (or starts a number that yielded no token): a string literal,
/// an operator or separator (`<>`, `<=`, `>=` taking two characters), or
/// the end of the text.
pub open spec fn lex_punctuation(s: Seq<char>) -> LexStep {
    if s.len() == 0 {
        LexStep::End(s)
    } else if s[0] == '"' {
        LexStep::Token(
            TokenValue::String(string_literal_body(s)),
            s.skip(string_literal_len(s) as int),
        )
    } else if single_char_token(s[0]) is Some {
        LexStep::Token(TokenValue::Keyword(single_char_token(s[0])->0), s.drop_first())
    } else if s[0] == '<' {
        let t = s.drop_first();
        if t.len() > 0 && t[0] == '>' {
            LexStep::Token(TokenValue::Keyword(GwBasicToken::DifferentTok), t.drop_first())
        } else if t.len() > 0 && t[0] == '=' {
            LexStep::Token(TokenValue::Keyword(GwBasicToken::LteTok), t.drop_first())
        } else {
            LexStep::Token(TokenValue::Keyword(GwBasicToken::LtTok), t)
        }
    } else if s[0] == '>' {
        let t = s.drop_first();
        if t.len() > 0 && t[0] == '=' {
            LexStep::Token(TokenValue::Keyword(GwBasicToken::GteTok), t.drop_first())
        } else {
            LexStep::Token(TokenValue::Keyword(GwBasicToken::GtTok), t)
        }
    } else {
        LexStep::Unrecognized
    }
}

/// The token of an upper-cased word: its keyword, or an identifier.
pub open spec fn word_token(w: Seq<char>) -> TokenValue {
    if keyword_map().contains_key(w) {
        TokenValue::Keyword(keyword_map()[w])
    } else {
        TokenValue::Identifier(w)
    }
}

/// The next token of the text `s0`: white space is skipped, then a word
/// (upper-cased; a keyword or an identifier), a number, or what
/// `lex_punctuation` finds.
pub open spec fn lex_step(s0: Seq<char>) -> LexStep {
    let s = s0.skip(whitespace_prefix_len(s0) as int);
    if word_len(s) > 0 {
        LexStep::Token(
            word_token(ascii_upper_seq(s.take(word_len(s) as int))),
            s.skip(word_len(s) as int),
        )
    } else if starts_number(s) {
        match numeric_token(number_text(s)) {
            Some(t) => LexStep::Token(t, s.skip(number_len(s) as int)),
            None => lex_punctuation(s.skip(number_len(s) as int)),
        }
    } else {
        lex_punctuation(s)
    }
}

/// A stream of tokens read from a character stream, with room for one
/// pushed-back token.
pub struct PushbackTokensIterator {
    chars_iterator: PushbackCharsIterator,
    tokens_info: GwTokenInfo,
    pushed_back: Option<GwToken>,
}

impl PushbackTokensIterator {
    /// The iterator's invariant: it looks words up in the keyword table.
    pub closed spec fn wf(&self) -> bool {
        self.tokens_info@ == keyword_map() && self.tokens_info.wf()
    }

    /// The characters not yet tokenized.
    pub closed spec fn text(&self) -> Seq<char> {
        self.chars_iterator@
    }

    /// The character stream below the tokens.
    pub closed spec fn chars_stream(&self) -> PushbackCharsIterator {
        self.chars_iterator
    }

    /// The text not yet tokenized is what the character stream below holds.
    pub proof fn lemma_text_is_stream(&self)
        ensures
            self.text() == self.chars_stream()@,
    {
    }

    /// The pushed-back token, if any.
    pub closed spec fn pushed(&self) -> Option<TokenValue> {
        match self.pushed_back {
            Some(t) => Some(t@),
            None => None,
        }
    }

    /// A measure that every token read lowers.
    pub open spec fn token_measure(&self) -> nat {
        (2 * self.text().len() + if self.pushed() is Some {
            1int
        } else {
            0int
        }) as nat
    }

    /// Whether the next call of `next` hands out something: a pushed-back
    /// token, a token, or the end of the text.
    pub open spec fn can_advance(&self) -> bool {
        self.pushed() is Some || !(lex_step(self.text()) is Unrecognized)
    }

    /// A token stream over the characters of `chars_iterator`.
    pub fn create(chars_iterator: PushbackCharsIterator) -> (it: PushbackTokensIterator)
        ensures
            it.wf(),
            it.text() == chars_iterator@,
            it.pushed() is None,
    {
        PushbackTokensIterator {
            chars_iterator,
            tokens_info: GwTokenInfo::create_statement_keywords(),
            pushed_back: None,
        }
    }

    /// The character stream below the tokens, for statements that read
    /// raw text.
    pub fn get_internal_iterator(&mut self) -> (r: &mut PushbackCharsIterator)
        ensures
            *r == old(self).chars_stream(),
            final(self).chars_stream() == *final(r),
            old(self).wf() ==> final(self).wf(),
            final(self).pushed() == old(self).pushed(),
    {
        &mut self.chars_iterator
    }

    /// Hands out the pushed-back token if there is one, else the next token
    /// of the text (`Some(None)` at the end of the text); `None` where the
    /// text starts with a character that begins no token.
    pub fn try_next(&mut self) -> (r: Option<Option<GwToken>>)
        requires
            old(self).wf(),
        ensures
            final(self).wf(),
            r is None <==> !old(self).can_advance(),
            r is Some ==> final(self).pushed() is None,
            r is Some && old(self).pushed() is Some ==> r->0 is Some && r->0->0@ == old(self).pushed()->0
                && final(self).text() == old(self).text(),
            r is Some && old(self).pushed() is None ==> match lex_step(old(self).text()) {
                LexStep::Token(t, rest) => r->0 is Some && r->0->0@ == t && final(self).text() == rest,
                LexStep::End(rest) => r->0 is None && final(self).text() == rest,
                LexStep::Unrecognized => false,
            },
            r is Some ==> final(self).token_measure() <= old(self).token_measure(),
            r is Some && r->0 is Some ==> final(self).token_measure() < old(self).token_measure(),
    {
        if self.pushed_back.is_some() {
            return Some(self.pushed_back.take());
        }
        let ghost s0 = self.chars_iterator@;
        consume_whitespace(&mut self.chars_iterator);
        let ghost s = self.chars_iterator@;
        proof {
            assert(s == s0.skip(whitespace_prefix_len(s0) as int));
        }
        if let Some(word) = recognize_word(&mut self.chars_iterator) {
            proof {
                lemma_word_tail_len_bound(s.drop_first());
                assert(self.chars_iterator@.len() < s0.len());
            }
            let upper_case_word = to_ascii_uppercase(&word);
            if let Some(kw) = self.tokens_info.get_token(&upper_case_word) {
                return Some(Some(GwToken::Keyword(*kw)));
            } else {
                return Some(Some(GwToken::Identifier(upper_case_word)));
            }
        } else if let Some(number_tok) = recognize_float_number_str(&mut self.chars_iterator) {
            proof {
                lemma_number_scan_len(s.drop_first(), s[0] == '.');
            }
            return Some(Some(number_tok));
        }
        let ghost p = self.chars_iterator@;
        assert(lex_step(s0) == lex_punctuation(p));
        if let Some(string_literal) = recognize_string_literal(&mut self.chars_iterator) {
            proof {
                lemma_quote_free_prefix_len(p.drop_first());
                assert(self.chars_iterator@.len() < s0.len());
            }
            return Some(Some(GwToken::String(string_literal)));
        } else if recognize_specific_char(&mut self.chars_iterator, '+') {
            return Some(Some(GwToken::Keyword(GwBasicToken::PlusTok)));
        } else if recognize_specific_char(&mut self.chars_iterator, '^') {
            return Some(Some(GwToken::Keyword(GwBasicToken::PowOperatorTok)));
        } else if recognize_specific_char(&mut self.chars_iterator, '/') {
            return Some(Some(GwToken::Keyword(GwBasicToken::DivTok)));
        } else if recognize_specific_char(&mut self.chars_iterator, '-') {
            return Some(Some(GwToken::Keyword(GwBasicToken::MinusTok)));
        } else if recognize_specific_char(&mut self.chars_iterator, '=') {
            return Some(Some(GwToken::Keyword(GwBasicToken::EqlTok)));
        } else if recognize_specific_char(&mut self.chars_iterator, '*') {
            return Some(Some(GwToken::Keyword(GwBasicToken::TimesTok)));
        } else if recognize_specific_char(&mut self.chars_iterator, '(') {
            return Some(Some(GwToken::Keyword(GwBasicToken::LparTok)));
        } else if recognize_specific_char(&mut self.chars_iterator, ')') {
            return Some(Some(GwToken::Keyword(GwBasicToken::RparTok)));
        } else if recognize_specific_char(&mut self.chars_iterator, ':') {
            return Some(Some(GwToken::Keyword(GwBasicToken::ColonSeparatorTok)));
        } else if recognize_specific_char(&mut self.chars_iterator, '<') {
            if recognize_specific_char(&mut self.chars_iterator, '>') {
                return Some(Some(GwToken::Keyword(GwBasicToken::DifferentTok)));
            } else if recognize_specific_char(&mut self.chars_iterator, '=') {
                return Some(Some(GwToken::Keyword(GwBasicToken::LteTok)));
            } else {
                return Some(Some(GwToken::Keyword(GwBasicToken::LtTok)));
            }
        } else if recognize_specific_char(&mut self.chars_iterator, '>') {
            if recognize_specific_char(&mut self.chars_iterator, '=') {
                return Some(Some(GwToken::Keyword(GwBasicToken::GteTok)));
            } else {
                return Some(Some(GwToken::Keyword(GwBasicToken::GtTok)));
            }
        } else if recognize_specific_char(&mut self.chars_iterator, ';') {
            return Some(Some(GwToken::Keyword(GwBasicToken::SemiColonSeparatorTok)));
        } else if recognize_specific_char(&mut self.chars_iterator, ',') {
            return Some(Some(GwToken::Keyword(GwBasicToken::CommaSeparatorTok)));
        } else if recognize_eol(&mut self.chars_iterator) {
            return Some(None);
        }
        None
    }


    /// Hands out the pushed-back token if there is one, else the next token
    /// of the text (`None` at the end of the text).
    pub fn next(&mut self) -> (r: Option<GwToken>)
        requires
            old(self).wf(),
            old(self).can_advance(),
        ensures
            final(self).wf(),
            final(self).pushed() is None,
            old(self).pushed() is Some ==> r is Some && r->0@ == old(self).pushed()->0
                && final(self).text() == old(self).text(),
            old(self).pushed() is None ==> match lex_step(old(self).text()) {
                LexStep::Token(t, rest) => r is Some && r->0@ == t && final(self).text() == rest,
                LexStep::End(rest) => r is None && final(self).text() == rest,
                LexStep::Unrecognized => false,
            },
            final(self).token_measure() <= old(self).token_measure(),
            r is Some ==> final(self).token_measure() < old(self).token_measure(),
    {
        match self.try_next() {
            Some(r) => r,
            None => None,
        }
    }

    /// Puts `tok_to_push` back in front of the token stream, replacing a
    /// token already waiting there.
    pub fn push_back(&mut self, tok_to_push: GwToken)
        requires
            old(self).wf(),
        ensures
            final(self).wf(),
            final(self).pushed() == Some(tok_to_push@),
            final(self).text() == old(self).text(),
            final(self).token_measure() <= 2 * old(self).text().len() + 1,
    {
        self.pushed_back = Some(tok_to_push);
    }

    /// Reads all characters left in the text (a pushed-back token is kept).
    pub fn consume_rest_of_line(&mut self) -> (r: String)
        requires
            old(self).wf(),
        ensures
            final(self).wf(),
            r@ == old(self).text(),
            final(self).text().len() == 0,
            final(self).pushed() == old(self).pushed(),
            final(self).token_measure() <= old(self).token_measure(),
    {
        let mut result = String::new();
        loop
            invariant
                result@ + self.chars_iterator@ == old(self).text(),
                self.wf(),
                self.pushed() == old(self).pushed(),
                self.token_measure() <= old(self).token_measure(),
            ensures
                result@ == old(self).text(),
                self.chars_iterator@.len() == 0,
                self.wf(),
                self.pushed() == old(self).pushed(),
                self.token_measure() <= old(self).token_measure(),
            decreases self.chars_iterator.measure(),
        {
            let ghost before = self.chars_iterator@;
            if let Some(next_char) = self.chars_iterator.next() {
                push_char(&mut result, next_char);
                assert(result@ + self.chars_iterator@ == old(self).text()) by {
                    assert(before == seq![next_char] + before.drop_first());
                }
            } else {
                assert(result@ + seq![] == result@);
                break;
            }
        }
        result
    }
}

/// ASCII upper case of a word (what `make_ascii_uppercase` does).
pub fn to_ascii_uppercase(word: &String) -> (r: String)
    ensures
        r@ == ascii_upper_seq(word@),
{
    let cs = chars_of(word.as_str());
    let mut out: Vec<char> = Vec::new();
    let mut i: usize = 0;
    while i < cs.len()
        invariant
            i <= cs@.len(),
            cs@ == word@,
            out@ == ascii_upper_seq(cs@.take(i as int)),
        decreases cs@.len() - i,
    {
        out.push(to_ascii_upper(cs[i]));
        assert(ascii_upper_seq(cs@.take(i + 1)) == ascii_upper_seq(cs@.take(i as int)).push(
            crate::text::ascii_upper(cs@[i as int]),
        ));
        i = i + 1;
    }
    assert(cs@.take(cs@.len() as int) == cs@);
    string_from_chars(out.as_slice())
}

/// When `s[..k]` are digits and `s[k]` is not (or `k` is the end),
/// the run of digits at the start of `s` has length `k`.
pub proof fn lemma_digit_run_exact(s: Seq<char>, k: int, i: int)
    requires
        0 <= i <= k <= s.len(),
        forall|j: int| 0 <= j < k ==> is_decimal_digit(#[trigger] s[j]),
        k == s.len() || !is_decimal_digit(s[k]),
    ensures
        digit_run(s, i) == k - i,
    decreases k - i,
{
    if i < k {
        lemma_digit_run_exact(s, k, i + 1);
    }
}

/// Reads an unsigned decimal integer: the run of digits at the front of
/// the stream is consumed; its value is returned when it fits in `i16`.
/// A stream that does not start with a digit is left as it was.
pub fn recognize_int_number_str(iterator: &mut PushbackCharsIterator) -> (r: Option<i16>)
    ensures
        digit_run(old(iterator)@, 0) == 0 ==> r is None && final(iterator)@ == old(iterator)@,
        digit_run(old(iterator)@, 0) > 0 ==> {
            let n = digit_run(old(iterator)@, 0) as int;
            let v = decimal_value(old(iterator)@.take(n));
            &&& final(iterator)@ == old(iterator)@.skip(n)
            &&& r == if v <= 32767 {
                Some(v as i16)
            } else {
                None
            }
        },
{
    let ghost s0 = iterator@;
    if let Some(c) = iterator.next() {
        if '0' <= c && c <= '9' {
            let mut value: u32 = (c as u32) - 48;
            let mut overflow = false;
            let ghost mut k: int = 1;
            assert(s0.take(1) =~= seq![c]);
            assert(decimal_value(seq![c]) == digit_value(c)) by {
                assert(seq![c].drop_last() =~= Seq::<char>::empty());
                assert(seq![c].last() == c);
                assert(decimal_value(Seq::<char>::empty()) == 0);
            }
            loop
                invariant
                    1 <= k <= s0.len(),
                    iterator@ == s0.skip(k),
                    forall|j: int| 0 <= j < k ==> is_decimal_digit(#[trigger] s0[j]),
                    overflow ==> decimal_value(s0.take(k)) > 32767,
                    !overflow ==> value == decimal_value(s0.take(k)) && value <= 32767,
                ensures
                    1 <= k <= s0.len(),
                    iterator@ == s0.skip(k),
                    forall|j: int| 0 <= j < k ==> is_decimal_digit(#[trigger] s0[j]),
                    k == s0.len() || !is_decimal_digit(s0[k]),
                    overflow ==> decimal_value(s0.take(k)) > 32767,
                    !overflow ==> value == decimal_value(s0.take(k)) && value <= 32767,
                decreases s0.len() - k,
            {
                let ghost before = iterator@;
                if let Some(d) = iterator.next() {
                    if '0' <= d && d <= '9' {
                        assert(s0[k] == d);
                        assert(s0.take(k + 1).drop_last() =~= s0.take(k));
                        let ghost dv = decimal_value(s0.take(k));
                        proof {
                            lemma_decimal_value_nonneg(s0.take(k));
                        }
                        if !overflow {
                            let next: u32 = value * 10 + ((d as u32) - 48);
                            if next > 32767 {
                                overflow = true;
                            } else {
                                value = next;
                            }
                        }
                        proof {
                            k = k + 1;
                        }
                        assert(iterator@ =~= s0.skip(k));
                    } else {
                        iterator.push_back(d);
                        assert(iterator@ =~= before);
                        break;
                    }
                } else {
                    break;
                }
            }
            proof {
                lemma_digit_run_exact(s0, k, 0);
            }
            if overflow {
                None
            } else {
                Some(value as i16)
            }
        } else {
            iterator.push_back(c);
            assert(iterator@ =~= s0);
            None
        }
    } else {
        None
    }
}

} // verus!
