use vstd::prelude::*;
use vstd::std_specs::iter::IteratorSpec;
use vstd::utf8::{encode_scalar, encode_utf8};

use crate::token::{keyword_of, keyword_token, Location, Punctuation, RawToken, RawTokenModel, Token, TokenModel};

verus! {

// ---------------------------------------------------------------------------
// Character classes
// ---------------------------------------------------------------------------

pub open spec fn spec_is_whitespace(c: char) -> bool {
    c == '\u{0009}' || c == '\u{000A}' || c == '\u{000B}' || c == '\u{000C}' || c == '\u{000D}'
        || c == '\u{0020}' || c == '\u{0085}' || c == '\u{200E}' || c == '\u{200F}'
        || c == '\u{2028}' || c == '\u{2029}'
}

pub open spec fn is_ascii_letter(c: char) -> bool {
    ('a' <= c && c <= 'z') || ('A' <= c && c <= 'Z')
}

pub open spec fn is_ascii_digit(c: char) -> bool {
    '0' <= c && c <= '9'
}

/// Whether a non-ASCII character has the Unicode property XID_Start.
pub uninterp spec fn xid_start(c: char) -> bool;

/// Whether a non-ASCII character has the Unicode property XID_Continue.
pub uninterp spec fn xid_continue(c: char) -> bool;

pub open spec fn spec_xid_start(c: char) -> bool {
    if (c as u32) < 128 {
        is_ascii_letter(c)
    } else {
        xid_start(c)
    }
}

pub open spec fn spec_xid_continue(c: char) -> bool {
    if (c as u32) < 128 {
        is_ascii_letter(c) || is_ascii_digit(c) || c == '_'
    } else {
        xid_continue(c)
    }
}

pub open spec fn spec_id_start(c: char) -> bool {
    c == '_' || spec_xid_start(c)
}

/// Relies on unicode_xid's `UnicodeXID::is_xid_start` for `char`: ASCII letters by
/// its fast path, the XID_Start table above ASCII.
#[verifier::external_body]
fn xid_start_of(c: char) -> (r: bool)
    ensures
        (c as u32) < 128 ==> r == is_ascii_letter(c),
        (c as u32) >= 128 ==> r == xid_start(c),
{
    unicode_xid::UnicodeXID::is_xid_start(c)
}

/// Relies on unicode_xid's `UnicodeXID::is_xid_continue` for `char`: ASCII letters,
/// digits and `_` by its fast path, the XID_Continue table above ASCII.
#[verifier::external_body]
fn xid_continue_of(c: char) -> (r: bool)
    ensures
        (c as u32) < 128 ==> r == (is_ascii_letter(c) || is_ascii_digit(c) || c == '_'),
        (c as u32) >= 128 ==> r == xid_continue(c),
{
    unicode_xid::UnicodeXID::is_xid_continue(c)
}

/// The Unicode scalar values of a text, in order.
fn chars_of(s: &str) -> (r: Vec<char>)
    ensures
        r@ == s@,
{
    broadcast use vstd::string::axiom_spec_iter, vstd::string::next_postcondition;

    let mut it = s.chars();
    let mut out: Vec<char> = Vec::new();
    loop
        invariant
            it.obeys_prophetic_iter_laws(),
            it.decrease() is Some,
            out@ + it.remaining() == s@,
        ensures
            out@ == s@,
        decreases it.decrease()->Some_0,
    {
        match it.next() {
            Some(c) => {
                out.push(c);
                proof {
                    assert(out@ + it.remaining() =~= s@);
                }
            },
            None => {
                break;
            },
        }
    }
    out
}

/// Relies on std's `FromIterator<&char>` for `String`: the text of the characters,
/// in order.
#[verifier::external_body]
pub(crate) fn string_of(cs: &Vec<char>) -> (r: String)
    ensures
        r@ == cs@,
{
    String::from_iter(cs)
}

pub fn is_whitespace(c: char) -> (r: bool)
    ensures
        r == spec_is_whitespace(c),
{
    matches!(
        c,
        '\u{0009}' | '\u{000A}' | '\u{000B}' | '\u{000C}' | '\u{000D}' | '\u{0020}' | '\u{0085}'
            | '\u{200E}' | '\u{200F}' | '\u{2028}' | '\u{2029}'
    )
}

fn is_id_start(c: char) -> (r: bool)
    ensures
        r == spec_id_start(c),
{
    c == '_' || xid_start_of(c)
}

fn is_id_continue(c: char) -> (r: bool)
    ensures
        r == spec_xid_continue(c),
{
    xid_continue_of(c)
}

/// The kinds of maximal character runs that the lexer scans.
#[derive(Clone, Copy)]
pub enum CharRun {
    IdContinue,
    Digit,
    NotQuote,
}

pub open spec fn in_run(run: CharRun, c: char) -> bool {
    match run {
        CharRun::IdContinue => spec_xid_continue(c),
        CharRun::Digit => is_ascii_digit(c),
        CharRun::NotQuote => c != '"',
    }
}

fn in_run_exec(run: CharRun, c: char) -> (r: bool)
    ensures
        r == in_run(run, c),
{
    match run {
        CharRun::IdContinue => is_id_continue(c),
        CharRun::Digit => '0' <= c && c <= '9',
        CharRun::NotQuote => c != '"',
    }
}

// ---------------------------------------------------------------------------
// The token sequence of a text
// ---------------------------------------------------------------------------

/// The character at index `i`, or `'\0'` past the end.
pub open spec fn char_at(s: Seq<char>, i: int) -> char {
    if 0 <= i < s.len() {
        s[i]
    } else {
        '\0'
    }
}

/// Byte offset of the character at index `i`: the UTF-8 length of what precedes it.
pub open spec fn byte_offset(s: Seq<char>, i: int) -> int {
    encode_utf8(s.take(i)).len() as int
}

/// Index of the first non-whitespace character at or after `i`.
pub open spec fn skip_ws(s: Seq<char>, i: int) -> int
    decreases s.len() - i,
{
    if 0 <= i < s.len() && spec_is_whitespace(s[i]) {
        skip_ws(s, i + 1)
    } else {
        i
    }
}

/// End of the maximal run of characters of the given kind that starts at `i`.
pub open spec fn run_end(s: Seq<char>, i: int, run: CharRun) -> int
    decreases s.len() - i,
{
    if 0 <= i < s.len() && in_run(run, s[i]) {
        run_end(s, i + 1, run)
    } else {
        i
    }
}

/// Value of a run of decimal digits.
pub open spec fn digits_value(d: Seq<char>) -> nat
    decreases d.len(),
{
    if d.len() == 0 {
        0
    } else {
        digits_value(d.drop_last()) * 10 + ((d.last() as u32) - ('0' as u32)) as nat
    }
}

/// An integer literal's value, held at `u64::MAX` when it does not fit.
pub open spec fn saturated(v: nat) -> u64 {
    if v > u64::MAX {
        u64::MAX
    } else {
        v as u64
    }
}

pub open spec fn single_punctuation(c: char) -> Option<Punctuation> {
    if c == '=' {
        Some(Punctuation::Eq)
    } else if c == '(' {
        Some(Punctuation::OpenParent)
    } else if c == ')' {
        Some(Punctuation::CloseParent)
    } else if c == '[' {
        Some(Punctuation::OpenBracket)
    } else if c == ']' {
        Some(Punctuation::CloseBracket)
    } else if c == '{' {
        Some(Punctuation::OpenBrace)
    } else if c == '}' {
        Some(Punctuation::CloseBrace)
    } else if c == ';' {
        Some(Punctuation::Semicolon)
    } else if c == ',' {
        Some(Punctuation::Comma)
    } else if c == '.' {
        Some(Punctuation::Dot)
    } else {
        None
    }
}

/// Punctuation that starts with `c` and may take the following character `n`:
/// the token and its length in characters.
pub open spec fn operator(c: char, n: char) -> Option<(Punctuation, int)> {
    if c == '+' {
        if n == '+' {
            Some((Punctuation::PlusPlus, 2))
        } else if n == '=' {
            Some((Punctuation::PlusEq, 2))
        } else {
            Some((Punctuation::Plus, 1))
        }
    } else if c == '-' {
        if n == '-' {
            Some((Punctuation::MinusMinus, 2))
        } else if n == '=' {
            Some((Punctuation::MinusEq, 2))
        } else {
            Some((Punctuation::Minus, 1))
        }
    } else if c == '*' {
        if n == '=' {
            Some((Punctuation::StarEq, 2))
        } else if n == '*' {
            Some((Punctuation::StarStar, 2))
        } else {
            Some((Punctuation::Star, 1))
        }
    } else if c == '/' {
        if n == '=' {
            Some((Punctuation::SlashEq, 2))
        } else {
            Some((Punctuation::Slash, 1))
        }
    } else {
        match single_punctuation(c) {
            Some(p) => Some((p, 1)),
            None => None,
        }
    }
}

/// The token that starts at character index `j` (not whitespace, not past the end):
/// what it holds and the index just after it.
pub open spec fn scan(s: Seq<char>, j: int) -> (RawTokenModel, int) {
    let c = s[j];
    match operator(c, char_at(s, j + 1)) {
        Some((p, n)) => (RawTokenModel::Punctuation(p), j + n),
        None => {
            if c == '"' {
                let e = run_end(s, j + 1, CharRun::NotQuote);
                (RawTokenModel::StringLiteral(s.subrange(j + 1, e)), if e < s.len() {
                    e + 1
                } else {
                    e
                })
            } else if spec_id_start(c) {
                let e = run_end(s, j + 1, CharRun::IdContinue);
                let text = s.subrange(j, e);
                (
                    match keyword_of(text) {
                        Some(k) => k,
                        None => RawTokenModel::Identifier(text),
                    },
                    e,
                )
            } else if is_ascii_digit(c) {
                let e = run_end(s, j + 1, CharRun::Digit);
                (RawTokenModel::IntegerLiteral(saturated(digits_value(s.subrange(j, e)))), e)
            } else {
                (RawTokenModel::UnexpectedChar(c), j + 1)
            }
        },
    }
}

/// The token that starts at character index `j`, with its byte range.
pub open spec fn token_at(s: Seq<char>, j: int) -> TokenModel {
    TokenModel {
        raw: scan(s, j).0,
        location: Location {
            start: byte_offset(s, j) as usize,
            end: byte_offset(s, scan(s, j).1) as usize,
        },
    }
}

/// The tokens of `s` from character index `i` on.
pub open spec fn lex_from(s: Seq<char>, i: int) -> Seq<TokenModel>
    decreases s.len() - i,
{
    let j = skip_ws(s, i);
    if i < 0 || j < i || j >= s.len() {
        seq![]
    } else {
        let k = scan(s, j).1;
        if k <= j || k > s.len() {
            seq![]
        } else {
            seq![token_at(s, j)] + lex_from(s, k)
        }
    }
}

/// The tokens of a whole text.
pub open spec fn tokens(s: Seq<char>) -> Seq<TokenModel> {
    lex_from(s, 0)
}

// ---------------------------------------------------------------------------
// Lemmas on the model
// ---------------------------------------------------------------------------

pub proof fn lemma_encode_append(a: Seq<char>, b: Seq<char>)
    ensures
        encode_utf8(a + b) == encode_utf8(a) + encode_utf8(b),
    decreases a.len(),
{
    if a.len() == 0 {
        assert(a + b =~= b);
        assert(encode_utf8(a) + encode_utf8(b) =~= encode_utf8(b));
    } else {
        assert((a + b).drop_first() =~= a.drop_first() + b);
        lemma_encode_append(a.drop_first(), b);
        assert(encode_utf8(a + b) =~= encode_utf8(a) + encode_utf8(b));
    }
}

pub proof fn lemma_byte_offset_step(s: Seq<char>, i: int)
    requires
        0 <= i < s.len(),
    ensures
        byte_offset(s, i + 1) == byte_offset(s, i) + encode_scalar(s[i] as u32).len(),
{
    assert(s.take(i + 1) =~= s.take(i) + seq![s[i]]);
    lemma_encode_append(s.take(i), seq![s[i]]);
    let one = seq![s[i]];
    assert(one.drop_first() =~= Seq::<char>::empty());
    assert(encode_utf8(Seq::<char>::empty()) == Seq::<u8>::empty());
    assert(encode_utf8(one) == encode_scalar(one[0] as u32) + encode_utf8(one.drop_first()));
    assert(encode_utf8(one) =~= encode_scalar(s[i] as u32));
}

pub proof fn lemma_byte_offset_bounded(s: Seq<char>, i: int, k: int)
    requires
        0 <= i <= k <= s.len(),
    ensures
        byte_offset(s, i) <= byte_offset(s, k) <= encode_utf8(s).len(),
        byte_offset(s, k) - byte_offset(s, i) == encode_utf8(s.subrange(i, k)).len(),
{
    assert(s.take(k) =~= s.take(i) + s.subrange(i, k));
    lemma_encode_append(s.take(i), s.subrange(i, k));
    assert(s =~= s.take(k) + s.skip(k));
    lemma_encode_append(s.take(k), s.skip(k));
}

pub proof fn lemma_skip_ws(s: Seq<char>, i: int)
    requires
        0 <= i <= s.len(),
    ensures
        i <= skip_ws(s, i) <= s.len(),
        skip_ws(s, i) < s.len() ==> !spec_is_whitespace(s[skip_ws(s, i)]),
        forall|m: int| i <= m < skip_ws(s, i) ==> spec_is_whitespace(#[trigger] s[m]),
    decreases s.len() - i,
{
    if i < s.len() && spec_is_whitespace(s[i]) {
        lemma_skip_ws(s, i + 1);
    }
}

pub proof fn lemma_run_end(s: Seq<char>, i: int, run: CharRun)
    requires
        0 <= i <= s.len(),
    ensures
        i <= run_end(s, i, run) <= s.len(),
        run_end(s, i, run) < s.len() ==> !in_run(run, s[run_end(s, i, run)]),
        forall|m: int| i <= m < run_end(s, i, run) ==> in_run(run, #[trigger] s[m]),
    decreases s.len() - i,
{
    if i < s.len() && in_run(run, s[i]) {
        lemma_run_end(s, i + 1, run);
    }
}

/// A run that holds exactly the characters `[i, e)` ends at `e`.
pub proof fn lemma_run_end_exact(s: Seq<char>, i: int, e: int, run: CharRun)
    requires
        0 <= i <= e <= s.len(),
        forall|m: int| i <= m < e ==> in_run(run, #[trigger] s[m]),
        e == s.len() || !in_run(run, s[e]),
    ensures
        run_end(s, i, run) == e,
    decreases e - i,
{
    if i < e {
        lemma_run_end_exact(s, i + 1, e, run);
    }
}

pub proof fn lemma_scan_progress(s: Seq<char>, j: int)
    requires
        0 <= j < s.len(),
    ensures
        j < scan(s, j).1 <= s.len(),
{
    lemma_run_end(s, j + 1, CharRun::NotQuote);
    lemma_run_end(s, j + 1, CharRun::IdContinue);
    lemma_run_end(s, j + 1, CharRun::Digit);
}

// ---------------------------------------------------------------------------
// The lexer
// ---------------------------------------------------------------------------

/// A forward-only cursor over the characters of a text that hands out its tokens
/// one at a time.
pub struct Lexer {
    chars: Vec<char>,
    pos: usize,
    offset: usize,
}

impl Lexer {
    /// The characters of the text being scanned.
    pub closed spec fn source(&self) -> Seq<char> {
        self.chars@
    }

    pub closed spec fn wf(&self) -> bool {
        &&& self.pos <= self.chars.len()
        &&& self.offset == byte_offset(self.chars@, self.pos as int)
        &&& encode_utf8(self.chars@).len() <= usize::MAX
    }

    /// The tokens that are still to come.
    pub closed spec fn rest(&self) -> Seq<TokenModel> {
        lex_from(self.chars@, self.pos as int)
    }

    pub fn new(source: &str) -> (r: Self)
        ensures
            r.wf(),
            r.source() == source@,
            r.rest() == tokens(source@),
    {
        let chars = chars_of(source);
        let byte_count: usize = source.as_bytes().len();
        proof {
            assert(chars@.take(0) =~= Seq::<char>::empty());
            assert(byte_count == encode_utf8(chars@).len());
        }
        Lexer { chars, pos: 0, offset: 0 }
    }

    fn advance(&mut self)
        requires
            old(self).wf(),
            old(self).pos < old(self).chars.len(),
        ensures
            final(self).wf(),
            final(self).chars == old(self).chars,
            final(self).pos == old(self).pos + 1,
    {
        let previous = self.chars[self.pos];
        let width = char_len(previous);
        proof {
            lemma_byte_offset_step(self.chars@, self.pos as int);
            lemma_byte_offset_bounded(self.chars@, self.pos + 1, self.chars@.len() as int);
        }
        self.pos = self.pos + 1;
        self.offset = self.offset + width;
    }

    fn advance_twice(&mut self)
        requires
            old(self).wf(),
            old(self).pos + 1 < old(self).chars.len(),
        ensures
            final(self).wf(),
            final(self).chars == old(self).chars,
            final(self).pos == old(self).pos + 2,
    {
        self.advance();
        self.advance();
    }

    fn eof(&self) -> (r: bool)
        ensures
            r == (self.pos >= self.chars.len()),
    {
        self.pos >= self.chars.len()
    }

    fn current(&self) -> (r: char)
        ensures
            r == char_at(self.chars@, self.pos as int),
    {
        if self.pos < self.chars.len() {
            self.chars[self.pos]
        } else {
            '\0'
        }
    }

    fn following(&self) -> (r: char)
        ensures
            r == char_at(self.chars@, self.pos + 1),
    {
        if self.pos < self.chars.len() && self.pos + 1 < self.chars.len() {
            self.chars[self.pos + 1]
        } else {
            '\0'
        }
    }

    /// Moves past the maximal run of characters of the given kind.
    fn advance_while(&mut self, run: CharRun)
        requires
            old(self).wf(),
        ensures
            final(self).wf(),
            final(self).chars == old(self).chars,
            final(self).pos == run_end(old(self).chars@, old(self).pos as int, run),
    {
        let ghost p0 = self.pos as int;
        while self.pos < self.chars.len() && in_run_exec(run, self.chars[self.pos])
            invariant
                self.wf(),
                self.chars == old(self).chars,
                p0 <= self.pos,
                run_end(self.chars@, p0, run) == run_end(self.chars@, self.pos as int, run),
            decreases self.chars.len() - self.pos,
        {
            self.advance();
        }
    }

    fn skip_whitespaces(&mut self)
        requires
            old(self).wf(),
        ensures
            final(self).wf(),
            final(self).chars == old(self).chars,
            final(self).pos == skip_ws(old(self).chars@, old(self).pos as int),
    {
        let ghost p0 = self.pos as int;
        while self.pos < self.chars.len() && is_whitespace(self.chars[self.pos])
            invariant
                self.wf(),
                self.chars == old(self).chars,
                p0 <= self.pos,
                skip_ws(self.chars@, p0) == skip_ws(self.chars@, self.pos as int),
            decreases self.chars.len() - self.pos,
        {
            self.advance();
        }
    }

    /// Location of the current character, which is ASCII.
    fn current_char_location(&self) -> (r: Location)
        requires
            self.wf(),
            self.pos < self.chars.len(),
            (self.chars@[self.pos as int] as u32) < 128,
        ensures
            r.start == byte_offset(self.chars@, self.pos as int),
            r.end == byte_offset(self.chars@, self.pos + 1),
    {
        proof {
            lemma_byte_offset_step(self.chars@, self.pos as int);
            lemma_byte_offset_bounded(self.chars@, self.pos + 1, self.chars@.len() as int);
        }
        Location { start: self.offset, end: self.offset + 1 }
    }

    fn location_from(&self, start_offset: usize) -> (r: Location)
        ensures
            r.start == start_offset,
            r.end == self.offset,
    {
        Location { start: start_offset, end: self.offset }
    }

    /// The one-character token `raw` at the current (ASCII) character.
    fn advance_with(&mut self, raw: RawToken) -> (t: Token)
        requires
            old(self).wf(),
            old(self).pos < old(self).chars.len(),
            (old(self).chars@[old(self).pos as int] as u32) < 128,
        ensures
            final(self).wf(),
            final(self).chars == old(self).chars,
            final(self).pos == old(self).pos + 1,
            t.raw == raw,
            t.location.start == byte_offset(old(self).chars@, old(self).pos as int),
            t.location.end == byte_offset(old(self).chars@, old(self).pos + 1),
    {
        let token = Token { raw, location: self.current_char_location() };
        self.advance();
        token
    }

    /// The two-character token `raw` at the current (ASCII) character and the next one.
    fn advance_twice_with(&mut self, raw: RawToken) -> (t: Token)
        requires
            old(self).wf(),
            old(self).pos + 1 < old(self).chars.len(),
            (old(self).chars@[old(self).pos as int] as u32) < 128,
            (old(self).chars@[old(self).pos + 1] as u32) < 128,
        ensures
            final(self).wf(),
            final(self).chars == old(self).chars,
            final(self).pos == old(self).pos + 2,
            t.raw == raw,
            t.location.start == byte_offset(old(self).chars@, old(self).pos as int),
            t.location.end == byte_offset(old(self).chars@, old(self).pos + 2),
    {
        proof {
            let s = self.chars@;
            lemma_byte_offset_step(s, self.pos as int);
            lemma_byte_offset_step(s, self.pos + 1);
            lemma_byte_offset_bounded(s, self.pos + 2, s.len() as int);
        }
        let token = Token {
            raw,
            location: Location { start: self.offset, end: self.offset + 2 },
        };
        self.advance_twice();
        token
    }

    /// The characters `[start, end)` of the text.
    fn slice(&self, start: usize, end: usize) -> (r: Vec<char>)
        requires
            start <= end <= self.chars.len(),
        ensures
            r@ == self.chars@.subrange(start as int, end as int),
    {
        let mut out: Vec<char> = Vec::new();
        let mut i: usize = start;
        while i < end
            invariant
                start <= i <= end <= self.chars.len(),
                out@ == self.chars@.subrange(start as int, i as int),
            decreases end - i,
        {
            out.push(self.chars[i]);
            i = i + 1;
        }
        out
    }

    /// Value of the digit run `[start, end)`, held at `u64::MAX` when it does not fit.
    fn saturating_decimal(&self, start: usize, end: usize) -> (r: u64)
        requires
            start <= end <= self.chars.len(),
            forall|m: int| start <= m < end ==> is_ascii_digit(#[trigger] self.chars@[m]),
        ensures
            r == saturated(digits_value(self.chars@.subrange(start as int, end as int))),
    {
        let mut value: u64 = 0;
        let mut i: usize = start;
        while i < end
            invariant
                start <= i <= end <= self.chars.len(),
                forall|m: int| start <= m < end ==> is_ascii_digit(#[trigger] self.chars@[m]),
                value == saturated(digits_value(self.chars@.subrange(start as int, i as int))),
            decreases end - i,
        {
            let c = self.chars[i];
            let d = (c as u32 - '0' as u32) as u64;
            let ghost before = digits_value(self.chars@.subrange(start as int, i as int));
            proof {
                let next = self.chars@.subrange(start as int, i + 1);
                assert(next.drop_last() =~= self.chars@.subrange(start as int, i as int));
                assert(digits_value(next) == before * 10 + d);
            }
            if value > (u64::MAX - d) / 10 {
                proof {
                    if before <= u64::MAX {
                        assert(before * 10 + d > u64::MAX) by (nonlinear_arith)
                            requires
                                before == value,
                                value > (u64::MAX - d) / 10,
                                d <= 9,
                        ;
                    } else {
                        assert(before * 10 + d > u64::MAX) by (nonlinear_arith)
                            requires
                                before > u64::MAX,
                        ;
                    }
                }
                value = u64::MAX;
            } else {
                proof {
                    assert(before == value);
                    assert(value * 10 + d <= u64::MAX) by (nonlinear_arith)
                        requires
                            value <= (u64::MAX - d) / 10,
                            d <= 9,
                    ;
                }
                value = value * 10 + d;
            }
            i = i + 1;
        }
        value
    }

    fn next_identifier_or_keyword_token(&mut self) -> (t: Token)
        requires
            old(self).wf(),
            old(self).pos < old(self).chars.len(),
            spec_id_start(old(self).chars@[old(self).pos as int]),
        ensures
            final(self).wf(),
            final(self).chars == old(self).chars,
            ({
                let s = old(self).chars@;
                let j = old(self).pos as int;
                let e = run_end(s, j + 1, CharRun::IdContinue);
                &&& final(self).pos == e
                &&& t.raw@ == match keyword_of(s.subrange(j, e)) {
                    Some(k) => k,
                    None => RawTokenModel::Identifier(s.subrange(j, e)),
                }
                &&& t.location.start == byte_offset(s, j)
                &&& t.location.end == byte_offset(s, e)
            }),
    {
        let start = self.pos;
        let start_offset = self.offset;
        self.advance();
        self.advance_while(CharRun::IdContinue);
        proof {
            lemma_run_end(self.chars@, start + 1, CharRun::IdContinue);
        }
        let text = self.slice(start, self.pos);
        let raw = match keyword_token(&text) {
            Some(keyword) => keyword,
            None => RawToken::Identifier(string_of(&text)),
        };
        Token { raw, location: self.location_from(start_offset) }
    }

    fn next_number_token(&mut self) -> (t: Token)
        requires
            old(self).wf(),
            old(self).pos < old(self).chars.len(),
            is_ascii_digit(old(self).chars@[old(self).pos as int]),
        ensures
            final(self).wf(),
            final(self).chars == old(self).chars,
            ({
                let s = old(self).chars@;
                let j = old(self).pos as int;
                let e = run_end(s, j + 1, CharRun::Digit);
                &&& final(self).pos == e
                &&& t.raw@ == RawTokenModel::IntegerLiteral(
                    saturated(digits_value(s.subrange(j, e))),
                )
                &&& t.location.start == byte_offset(s, j)
                &&& t.location.end == byte_offset(s, e)
            }),
    {
        let start = self.pos;
        let start_offset = self.offset;
        self.advance();
        self.advance_while(CharRun::Digit);
        proof {
            lemma_run_end(self.chars@, start + 1, CharRun::Digit);
        }
        let value = self.saturating_decimal(start, self.pos);
        Token { raw: RawToken::IntegerLiteral(value), location: self.location_from(start_offset) }
    }

    fn next_string_token(&mut self) -> (t: Token)
        requires
            old(self).wf(),
            old(self).pos < old(self).chars.len(),
            old(self).chars@[old(self).pos as int] == '"',
        ensures
            final(self).wf(),
            final(self).chars == old(self).chars,
            ({
                let s = old(self).chars@;
                let j = old(self).pos as int;
                let e = run_end(s, j + 1, CharRun::NotQuote);
                &&& final(self).pos == if e < s.len() {
                    e + 1
                } else {
                    e
                }
                &&& t.raw@ == RawTokenModel::StringLiteral(s.subrange(j + 1, e))
                &&& t.location.start == byte_offset(s, j)
                &&& t.location.end == byte_offset(s, final(self).pos as int)
            }),
    {
        let start_offset = self.offset;
        self.advance();
        let content_start = self.pos;
        self.advance_while(CharRun::NotQuote);
        proof {
            lemma_run_end(self.chars@, content_start as int, CharRun::NotQuote);
        }
        let content = self.slice(content_start, self.pos);
        if !self.eof() {
            self.advance();
        }
        Token {
            raw: RawToken::StringLiteral(string_of(&content)),
            location: self.location_from(start_offset),
        }
    }

    /// The token at the current character, which is neither whitespace nor past the end.
    fn scan_token(&mut self) -> (t: Token)
        requires
            old(self).wf(),
            old(self).pos < old(self).chars.len(),
        ensures
            final(self).wf(),
            final(self).chars == old(self).chars,
            final(self).pos == scan(old(self).chars@, old(self).pos as int).1,
            t@ == token_at(old(self).chars@, old(self).pos as int),
    {
        let c = self.current();
        let n = self.following();
        let ghost s = self.chars@;
        let ghost j = self.pos as int;
        proof {
            lemma_scan_progress(s, j);
        }
        if c == '+' {
            if n == '+' {
                self.advance_twice_with(RawToken::Punctuation(Punctuation::PlusPlus))
            } else if n == '=' {
                self.advance_twice_with(RawToken::Punctuation(Punctuation::PlusEq))
            } else {
                self.advance_with(RawToken::Punctuation(Punctuation::Plus))
            }
        } else if c == '-' {
            if n == '-' {
                self.advance_twice_with(RawToken::Punctuation(Punctuation::MinusMinus))
            } else if n == '=' {
                self.advance_twice_with(RawToken::Punctuation(Punctuation::MinusEq))
            } else {
                self.advance_with(RawToken::Punctuation(Punctuation::Minus))
            }
        } else if c == '*' {
            if n == '=' {
                self.advance_twice_with(RawToken::Punctuation(Punctuation::StarEq))
            } else if n == '*' {
                self.advance_twice_with(RawToken::Punctuation(Punctuation::StarStar))
            } else {
                self.advance_with(RawToken::Punctuation(Punctuation::Star))
            }
        } else if c == '/' {
            if n == '=' {
                self.advance_twice_with(RawToken::Punctuation(Punctuation::SlashEq))
            } else {
                self.advance_with(RawToken::Punctuation(Punctuation::Slash))
            }
        } else if c == '=' {
            self.advance_with(RawToken::Punctuation(Punctuation::Eq))
        } else if c == '(' {
            self.advance_with(RawToken::Punctuation(Punctuation::OpenParent))
        } else if c == ')' {
            self.advance_with(RawToken::Punctuation(Punctuation::CloseParent))
        } else if c == '[' {
            self.advance_with(RawToken::Punctuation(Punctuation::OpenBracket))
        } else if c == ']' {
            self.advance_with(RawToken::Punctuation(Punctuation::CloseBracket))
        } else if c == '{' {
            self.advance_with(RawToken::Punctuation(Punctuation::OpenBrace))
        } else if c == '}' {
            self.advance_with(RawToken::Punctuation(Punctuation::CloseBrace))
        } else if c == ';' {
            self.advance_with(RawToken::Punctuation(Punctuation::Semicolon))
        } else if c == ',' {
            self.advance_with(RawToken::Punctuation(Punctuation::Comma))
        } else if c == '.' {
            self.advance_with(RawToken::Punctuation(Punctuation::Dot))
        } else if c == '"' {
            self.next_string_token()
        } else if is_id_start(c) {
            self.next_identifier_or_keyword_token()
        } else if '0' <= c && c <= '9' {
            self.next_number_token()
        } else {
            let start_offset = self.offset;
            self.advance();
            Token { raw: RawToken::UnexpectedChar(c), location: self.location_from(start_offset) }
        }
    }

    /// The next token, or `None` once only whitespace is left.
    pub fn next(&mut self) -> (r: Option<Token>)
        requires
            old(self).wf(),
        ensures
            final(self).wf(),
            final(self).source() == old(self).source(),
            match r {
                None => old(self).rest() == Seq::<TokenModel>::empty() && final(self).rest()
                    == Seq::<TokenModel>::empty(),
                Some(t) => old(self).rest() == seq![t@] + final(self).rest(),
            },
    {
        let ghost s = self.chars@;
        let ghost i = self.pos as int;
        self.skip_whitespaces();
        proof {
            lemma_skip_ws(s, i);
            reveal_with_fuel(lex_from, 1);
        }
        if self.eof() {
            proof {
                let j = self.pos as int;
                assert(lex_from(s, j) == Seq::<TokenModel>::empty()) by {
                    lemma_skip_ws(s, j);
                }
                assert(lex_from(s, i) == Seq::<TokenModel>::empty());
            }
            return None;
        }
        proof {
            lemma_skip_ws(s, self.pos as int);
            lemma_scan_progress(s, self.pos as int);
        }
        let t = self.scan_token();
        Some(t)
    }
}

/// UTF-8 length of a character.
fn char_len(c: char) -> (r: usize)
    ensures
        r == encode_scalar(c as u32).len(),
        1 <= r <= 4,
        (c as u32) < 128 ==> r == 1,
{
    proof {
        vstd::utf8::char_is_scalar(c);
    }
    let v = c as u32;
    if v <= 0x7F {
        1
    } else if v <= 0x7FF {
        2
    } else if v <= 0xFFFF {
        3
    } else {
        4
    }
}

// ---------------------------------------------------------------------------
// Laws of the token sequence
// ---------------------------------------------------------------------------

proof fn lemma_skip_all_whitespace(s: Seq<char>, i: int)
    requires
        0 <= i <= s.len(),
        forall|m: int| 0 <= m < s.len() ==> spec_is_whitespace(#[trigger] s[m]),
    ensures
        skip_ws(s, i) == s.len(),
    decreases s.len() - i,
{
    if i < s.len() {
        lemma_skip_all_whitespace(s, i + 1);
    }
}

/// An empty text, or one made of whitespace alone, has no tokens.
pub proof fn lemma_whitespace_has_no_tokens(s: Seq<char>)
    requires
        forall|m: int| 0 <= m < s.len() ==> spec_is_whitespace(#[trigger] s[m]),
    ensures
        tokens(s) == Seq::<TokenModel>::empty(),
{
    lemma_skip_all_whitespace(s, 0);
}

/// A scanned identifier spelled as a reserved word becomes that word's token: no
/// identifier token ever carries a reserved spelling.
pub proof fn lemma_reserved_words_are_keywords(s: Seq<char>, j: int)
    requires
        0 <= j < s.len(),
    ensures
        match scan(s, j).0 {
            RawTokenModel::Identifier(name) => keyword_of(name) is None,
            _ => true,
        },
        spec_id_start(s[j]) && keyword_of(s.subrange(j, scan(s, j).1)) is Some ==> scan(s, j).0
            == keyword_of(s.subrange(j, scan(s, j).1))->Some_0,
{
}

/// Punctuation written with two characters.
pub open spec fn is_two_char(p: Punctuation) -> bool {
    p == Punctuation::PlusPlus || p == Punctuation::PlusEq || p == Punctuation::MinusMinus || p
        == Punctuation::MinusEq || p == Punctuation::StarStar || p == Punctuation::StarEq || p
        == Punctuation::SlashEq
}

/// A token's byte range is as long as the UTF-8 encoding of the characters it was
/// scanned from; for two-character punctuation that is two bytes.
pub proof fn lemma_token_width(s: Seq<char>, j: int)
    requires
        0 <= j < s.len(),
        encode_utf8(s).len() <= usize::MAX,
    ensures
        token_at(s, j).location.end - token_at(s, j).location.start == encode_utf8(
            s.subrange(j, scan(s, j).1),
        ).len(),
        match scan(s, j).0 {
            RawTokenModel::Punctuation(p) => is_two_char(p) ==> token_at(s, j).location.end
                - token_at(s, j).location.start == 2,
            _ => true,
        },
{
    lemma_scan_progress(s, j);
    let k = scan(s, j).1;
    lemma_byte_offset_bounded(s, j, k);
    lemma_byte_offset_bounded(s, k, s.len() as int);
    match scan(s, j).0 {
        RawTokenModel::Punctuation(p) => {
            if is_two_char(p) {
                assert(k == j + 2);
                lemma_byte_offset_step(s, j);
                lemma_byte_offset_step(s, j + 1);
            }
        },
        _ => {},
    }
}

proof fn lemma_reserved_words_are_lowercase(w: Seq<char>)
    requires
        keyword_of(w) is Some,
    ensures
        w.len() > 0,
        forall|m: int| 0 <= m < w.len() ==> 'a' <= #[trigger] w[m] && w[m] <= 'z',
{
}

proof fn lemma_ascii_offsets(s: Seq<char>, e: int)
    requires
        0 <= e <= s.len(),
        forall|m: int| 0 <= m < e ==> ((#[trigger] s[m]) as u32) < 128,
    ensures
        forall|i: int| 0 <= i <= e ==> #[trigger] byte_offset(s, i) == i,
    decreases e,
{
    if e == 0 {
        assert(s.take(0) =~= Seq::<char>::empty());
    } else {
        lemma_ascii_offsets(s, e - 1);
        lemma_byte_offset_step(s, e - 1);
        assert forall|i: int| 0 <= i <= e implies #[trigger] byte_offset(s, i) == i by {
            if i < e {
                assert(byte_offset(s, i) == i);
            }
        }
    }
}

/// A text that opens with a reserved word, followed by its end or by a character
/// that cannot continue an identifier, yields first that word's token over its bytes.
pub proof fn lemma_reserved_word_token(s: Seq<char>, w: Seq<char>)
    requires
        keyword_of(w) is Some,
        w.len() <= s.len(),
        s.take(w.len() as int) == w,
        w.len() == s.len() || !spec_xid_continue(s[w.len() as int]),
    ensures
        tokens(s).len() > 0,
        tokens(s)[0] == (TokenModel {
            raw: keyword_of(w)->Some_0,
            location: Location { start: 0, end: w.len() as usize },
        }),
{
    lemma_reserved_words_are_lowercase(w);
    let e = w.len() as int;
    assert forall|m: int| 0 <= m < e implies 'a' <= #[trigger] s[m] && s[m] <= 'z' by {
        assert(s[m] == w[m]);
    }
    lemma_ascii_offsets(s, e);
    assert(byte_offset(s, 0) == 0);
    assert(byte_offset(s, e) == e);
    lemma_run_end_exact(s, 1, e, CharRun::IdContinue);
    assert(s.subrange(0, e) =~= w);
    lemma_scan_progress(s, 0);
    assert(scan(s, 0).1 == e);
    assert(skip_ws(s, 0) == 0);
}

/// Every token from index `i` on was scanned at some character index `j >= i`.
pub proof fn lemma_tokens_are_scanned(s: Seq<char>, i: int, n: int)
    requires
        0 <= i <= s.len(),
        0 <= n < lex_from(s, i).len(),
    ensures
        exists|j: int|
            i <= j < s.len() && !spec_is_whitespace(s[j]) && lex_from(s, i)[n] == token_at(s, j),
    decreases s.len() - i,
{
    lemma_skip_ws(s, i);
    let j = skip_ws(s, i);
    lemma_scan_progress(s, j);
    let k = scan(s, j).1;
    if n == 0 {
        assert(lex_from(s, i)[0] == token_at(s, j));
    } else {
        assert(lex_from(s, i)[n] == lex_from(s, k)[n - 1]);
        lemma_tokens_are_scanned(s, k, n - 1);
    }
}

/// Each token of a text spans as many bytes as the UTF-8 encoding of the characters
/// `[j, k)` it was scanned from; two-character punctuation spans two bytes.
pub proof fn lemma_token_spans(s: Seq<char>, n: int)
    requires
        0 <= n < tokens(s).len(),
        encode_utf8(s).len() <= usize::MAX,
    ensures
        exists|j: int, k: int|
            0 <= j < k <= s.len() && tokens(s)[n].location.start == byte_offset(s, j)
                && tokens(s)[n].location.end == byte_offset(s, k) && tokens(s)[n].location.end
                - tokens(s)[n].location.start == encode_utf8(s.subrange(j, k)).len(),
        match tokens(s)[n].raw {
            RawTokenModel::Punctuation(p) => is_two_char(p) ==> tokens(s)[n].location.end
                - tokens(s)[n].location.start == 2,
            _ => true,
        },
{
    lemma_tokens_are_scanned(s, 0, n);
    let j = choose|j: int|
        0 <= j < s.len() && !spec_is_whitespace(s[j]) && lex_from(s, 0)[n] == token_at(s, j);
    lemma_token_width(s, j);
    lemma_scan_progress(s, j);
    let k = scan(s, j).1;
    lemma_byte_offset_bounded(s, j, k);
    lemma_byte_offset_bounded(s, k, s.len() as int);
    assert(0 <= j < k <= s.len());
}

} // verus!
