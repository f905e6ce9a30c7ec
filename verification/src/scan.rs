//! Scanning of CSS escape sequences and identifiers over the lookahead
//! cursor of a [`Lexer`]. Nothing here commits a token but
//! [`peek_until_newline`].

use vstd::prelude::*;
use crate::chars::{as_hex, as_hex_spec, hex_char_for, hex_char_spec, is_digit, is_digit_spec, is_hex_digit, is_hex_spec, is_name, is_name_spec, is_name_start, is_name_start_spec, is_scalar, is_whitespace, is_whitespace_spec};
use crate::error::Error;
use crate::lexer::{Lexer, Token};
use crate::span::Span;

verus! {

/// `String::push` appends one character.
pub assume_specification[ String::push ](s: &mut String, c: char)
    ensures
        final(s)@ == old(s)@.push(c),
;

/// `char::from_u32` gives the character of a number that is a Unicode
/// scalar value (at most 0x10FFFF and no surrogate), and nothing for any
/// other number.
pub assume_specification[ char::from_u32 ](i: u32) -> (r: Option<char>)
    ensures
        (i <= 0xD7FF || (0xE000 <= i && i <= 0x10FFFF)) ==> r == Some(i as char),
        !(i <= 0xD7FF || (0xE000 <= i && i <= 0x10FFFF)) ==> r.is_none(),
;

/// A value together with the source range it was read from.
#[derive(Debug, PartialEq, Eq)]
pub struct Spanned<T> {
    pub node: T,
    pub span: Span,
}

/// What a scan from some position amounts to: where the lookahead cursor
/// ends up, the text read, and the failure (message and span) if there is
/// one.
pub struct Scan {
    pub end: int,
    pub text: Seq<char>,
    pub failure: Option<(Seq<char>, Span)>,
}

pub open spec fn stop(i: int) -> Scan {
    Scan { end: i, text: Seq::empty(), failure: None }
}

pub open spec fn fail(i: int, message: Seq<char>, span: Span) -> Scan {
    Scan { end: i, text: Seq::empty(), failure: Some((message, span)) }
}

/// The scan `s` with `prefix` read before it.
pub open spec fn prepend(prefix: Seq<char>, s: Scan) -> Scan {
    Scan { end: s.end, text: prefix + s.text, failure: s.failure }
}

/// Whether a text result reports exactly the scan `s`.
pub open spec fn text_matches(r: Result<String, Error>, s: Scan) -> bool {
    match r {
        Ok(text) => s.failure.is_none() && text@ == s.text,
        Err(e) => s.failure == Some((e.message@, e.span)),
    }
}

/// The merge of the positions of the tokens from `lo` up to `hi`; the
/// position of the token at `lo` where the range holds one token or none.
pub open spec fn span_over(t: Seq<Token>, lo: int, hi: int) -> Span
    decreases hi - lo,
{
    if hi <= lo + 1 {
        t[lo].pos
    } else {
        span_over(t, lo, hi - 1).merge_spec(t[hi - 1].pos)
    }
}

/// The position of the first newline at or after `i`, or the end of the
/// buffer.
pub open spec fn next_newline(t: Seq<Token>, i: int) -> int
    decreases t.len() - i,
{
    if i < 0 || i >= t.len() || t[i].kind == '\n' {
        i
    } else {
        next_newline(t, i + 1)
    }
}

/// How many hexadecimal digits stand in a row from `i`, counted up to
/// `limit`.
pub open spec fn hex_run(t: Seq<Token>, i: int, limit: nat) -> nat
    decreases limit,
{
    if limit == 0 || i < 0 || i >= t.len() || !is_hex_spec(t[i].kind) {
        0
    } else {
        1 + hex_run(t, i + 1, (limit - 1) as nat)
    }
}

/// The number that the `n` hexadecimal digits from `i` write, most
/// significant digit first.
pub open spec fn hex_value(t: Seq<Token>, i: int, n: nat) -> nat
    decreases n,
{
    if n == 0 {
        0
    } else {
        hex_value(t, i, (n - 1) as nat) * 16 + as_hex_spec(t[i + n - 1].kind)
    }
}

/// The text that stands for an escaped code point: the character itself
/// where it is a name character; a hexadecimal escape closed by a space
/// for a control character; the character behind a backslash otherwise.
pub open spec fn encode(v: nat) -> Seq<char> {
    let c = v as char;
    if is_name_spec(c) {
        seq![c]
    } else if v <= 0x1F || v == 0x7F {
        if v > 0xF {
            seq!['\\', hex_char_spec(v / 16), hex_char_spec(v % 16), ' ']
        } else {
            seq!['\\', hex_char_spec(v), ' ']
        }
    } else {
        seq!['\\', c]
    }
}

/// The escape sequence that starts at `i`, just behind its backslash.
pub open spec fn escape(t: Seq<Token>, i: int) -> Scan {
    if i < 0 || i >= t.len() {
        stop(i)
    } else if t[i].kind == '\n' {
        fail(i, "Expected escape sequence."@, t[i].pos)
    } else if is_hex_spec(t[i].kind) {
        let n = hex_run(t, i, 6);
        let v = hex_value(t, i, n);
        let j = i + n;
        let end = if j < t.len() && is_whitespace_spec(t[j].kind) {
            j + 1
        } else {
            j
        };
        if is_scalar(v) {
            Scan { end, text: encode(v), failure: None }
        } else {
            fail(end, "Invalid escape sequence."@, span_over(t, i, j))
        }
    } else {
        Scan { end: i + 1, text: encode(t[i].kind as nat), failure: None }
    }
}

/// In unit mode a `-` before a `.` or a digit ends the identifier.
pub open spec fn unit_boundary(t: Seq<Token>, i: int) -> bool {
    t[i].kind == '-' && i + 1 < t.len() && (t[i + 1].kind == '.' || is_digit_spec(
        t[i + 1].kind,
    ))
}

/// The body of an identifier from `i`: name characters and escapes, as
/// many as follow.
pub open spec fn body(t: Seq<Token>, i: int, unit: bool) -> Scan
    decreases t.len() - i,
{
    if i < 0 || i >= t.len() {
        stop(i)
    } else if unit && unit_boundary(t, i) {
        stop(i)
    } else if is_name_spec(t[i].kind) {
        prepend(seq![t[i].kind], body(t, i + 1, unit))
    } else if t[i].kind == '\\' {
        let e = escape(t, i + 1);
        if e.failure.is_some() || e.end <= i || e.end > t.len() {
            e
        } else {
            prepend(e.text, body(t, e.end, unit))
        }
    } else {
        stop(i)
    }
}

/// An identifier from its first character that is no leading `-`.
pub open spec fn ident_start(t: Seq<Token>, j: int, unit: bool) -> Scan {
    let c = t[j].kind;
    if is_name_start_spec(c) {
        prepend(seq![c], body(t, j + 1, unit))
    } else if c == '\\' {
        let e = escape(t, j + 1);
        if e.failure.is_some() {
            e
        } else {
            prepend(e.text, body(t, e.end, unit))
        }
    } else {
        fail(j, "Expected identifier."@, t[j].pos)
    }
}

/// A whole identifier from `i`; `span_before` is blamed where the input
/// has ended.
pub open spec fn ident(t: Seq<Token>, i: int, unit: bool, span_before: Span) -> Scan {
    if i < 0 || i >= t.len() {
        fail(i, "Expected identifier."@, span_before)
    } else if t[i].kind == '-' {
        if i + 1 >= t.len() {
            Scan { end: i + 1, text: seq!['-'], failure: None }
        } else if t[i + 1].kind == '-' {
            prepend(seq!['-', '-'], body(t, i + 2, unit))
        } else {
            prepend(seq!['-'], ident_start(t, i + 1, unit))
        }
    } else {
        ident_start(t, i, unit)
    }
}

/// A run of hexadecimal digits ends within the buffer and within its limit.
pub proof fn lemma_hex_run_bound(t: Seq<Token>, i: int, limit: nat)
    requires
        0 <= i <= t.len(),
    ensures
        hex_run(t, i, limit) <= limit,
        i + hex_run(t, i, limit) <= t.len(),
    decreases limit,
{
    if limit == 0 || i >= t.len() || !is_hex_spec(t[i].kind) {
    } else {
        lemma_hex_run_bound(t, i + 1, (limit - 1) as nat);
    }
}

/// An escape ends behind where it starts, within the buffer.
pub proof fn lemma_escape_end(t: Seq<Token>, i: int)
    requires
        0 <= i <= t.len(),
    ensures
        i <= escape(t, i).end <= t.len(),
{
    lemma_hex_run_bound(t, i, 6);
}

/// The characters of the tokens.
pub open spec fn kinds(t: Seq<Token>) -> Seq<char> {
    Seq::new(t.len(), |j: int| t[j].kind)
}

/// Whether the tokens from `i` are the characters of `s`, in order.
pub open spec fn spells(t: Seq<Token>, i: int, s: Seq<char>) -> bool {
    0 <= i && i + s.len() <= t.len() && kinds(t).subrange(i, i + s.len()) == s
}

/// Tokens that spell two texts in a row spell the first, and the second
/// behind it.
pub proof fn lemma_spells_split(t: Seq<Token>, i: int, a: Seq<char>, b: Seq<char>)
    requires
        spells(t, i, a + b),
    ensures
        spells(t, i, a),
        spells(t, i + a.len(), b),
{
    let w = kinds(t).subrange(i, i + (a + b).len());
    assert(kinds(t).subrange(i, i + a.len()) =~= w.subrange(0, a.len() as int));
    assert(w.subrange(0, a.len() as int) =~= a);
    assert(kinds(t).subrange(i + a.len(), i + a.len() + b.len()) =~= w.subrange(
        a.len() as int,
        (a.len() + b.len()) as int,
    ));
    assert(w.subrange(a.len() as int, (a.len() + b.len()) as int) =~= b);
}

/// An escape that was written for a code point which is no name
/// character reads back as itself: where the tokens from the backslash
/// at `i - 1` spell that escape, decoding from `i` takes all of it and
/// gives the same text again.
pub proof fn lemma_written_escape_reads_back(t: Seq<Token>, i: int, v: nat)
    requires
        is_scalar(v),
        !is_name_spec(v as char),
        spells(t, i - 1, encode(v)),
    ensures
        escape(t, i) == (Scan { end: i - 1 + encode(v).len(), text: encode(v), failure: None }),
{
    reveal_with_fuel(hex_run, 4);
    reveal_with_fuel(hex_value, 3);
    let e = encode(v);
    let w = kinds(t).subrange(i - 1, i - 1 + e.len());
    assert(t[i].kind == w[1]);
    if v <= 0x1F || v == 0x7F {
        assert(t[i + 1].kind == w[2]);
        if v > 0xF {
            assert(t[i + 2].kind == w[3]);
            assert(as_hex_spec(hex_char_spec(v / 16)) == v / 16);
            assert(as_hex_spec(hex_char_spec(v % 16)) == v % 16);
            assert(is_hex_spec(hex_char_spec(v / 16)));
            assert(is_hex_spec(hex_char_spec(v % 16)));
            assert(hex_run(t, i, 6) == 2);
            assert(hex_value(t, i, 2) == v);
        } else {
            assert(as_hex_spec(hex_char_spec(v)) == v);
            assert(is_hex_spec(hex_char_spec(v)));
            assert(hex_run(t, i, 6) == 1);
            assert(hex_value(t, i, 1) == v);
        }
    } else {
        assert(t[i].kind == v as char);
        assert((v as char) as nat == v);
    }
}

/// One piece of a body that was written out, a name character or an
/// escape, is read back as that piece: the body from `k` is the piece
/// before the body behind it.
pub proof fn lemma_written_piece_reads_back(u: Seq<Token>, k: int, v: nat)
    requires
        is_scalar(v),
        spells(u, k, encode(v)),
    ensures
        body(u, k, false) == prepend(encode(v), body(u, k + encode(v).len(), false)),
{
    let e = encode(v);
    let w = kinds(u).subrange(k, k + e.len());
    assert(u[k].kind == w[0]);
    if is_name_spec(v as char) {
    } else {
        lemma_written_escape_reads_back(u, k + 1, v);
    }
}

/// The text of an identifier's body reads back as itself: tokens that
/// spell the text that a body scan returned, up to the end of their
/// buffer, are read whole as a body outside unit mode, and give the same
/// text again.
pub proof fn lemma_body_text_reads_back(t: Seq<Token>, i: int, unit: bool, u: Seq<Token>, k: int)
    requires
        0 <= i,
        body(t, i, unit).failure.is_none(),
        spells(u, k, body(t, i, unit).text),
        k + body(t, i, unit).text.len() == u.len(),
    ensures
        body(u, k, false) == (Scan {
            end: u.len() as int,
            text: body(t, i, unit).text,
            failure: None,
        }),
    decreases t.len() - i,
{
    let s = body(t, i, unit).text;
    if i >= t.len() || (unit && unit_boundary(t, i)) {
        assert(s =~= Seq::<char>::empty());
    } else if is_name_spec(t[i].kind) {
        let c = t[i].kind;
        let rest = body(t, i + 1, unit);
        assert((c as nat) as char == c);
        assert(encode(c as nat) =~= seq![c]);
        lemma_spells_split(u, k, seq![c], rest.text);
        lemma_written_piece_reads_back(u, k, c as nat);
        lemma_body_text_reads_back(t, i + 1, unit, u, k + 1);
    } else if t[i].kind == '\\' {
        lemma_escape_end(t, i + 1);
        let e = escape(t, i + 1);
        let rest = body(t, e.end, unit);
        if i + 1 >= t.len() {
            assert(s =~= Seq::<char>::empty());
        } else {
            let v = if is_hex_spec(t[i + 1].kind) {
                hex_value(t, i + 1, hex_run(t, i + 1, 6))
            } else {
                t[i + 1].kind as nat
            };
            assert(e.text == encode(v));
            lemma_spells_split(u, k, encode(v), rest.text);
            lemma_written_piece_reads_back(u, k, v);
            lemma_body_text_reads_back(t, e.end, unit, u, k + encode(v).len());
        }
    } else {
        assert(s =~= Seq::<char>::empty());
    }
}

/// Whether the character that starts the identifier at `j` is written
/// plainly: as itself, or as an escape of something that is no digit and
/// no dash.
pub open spec fn plain_start(t: Seq<Token>, j: int) -> bool {
    t[j].kind == '\\' ==> {
        let e = escape(t, j + 1).text;
        e.len() >= 1 && (e.len() == 1 ==> is_name_start_spec(e[0]))
    }
}

/// Where the first character of an identifier stands, behind a single
/// leading dash if there is one.
pub open spec fn start_of(t: Seq<Token>, i: int) -> int {
    if t[i].kind == '-' && i + 1 < t.len() && t[i + 1].kind != '-' {
        i + 1
    } else {
        i
    }
}

/// The text of an identifier from its first character reads back as
/// itself, where that character is written plainly.
pub proof fn lemma_start_reads_back(t: Seq<Token>, j: int, unit: bool, u: Seq<Token>, k: int)
    requires
        0 <= j < t.len(),
        ident_start(t, j, unit).failure.is_none(),
        plain_start(t, j),
        spells(u, k, ident_start(t, j, unit).text),
        k + ident_start(t, j, unit).text.len() == u.len(),
    ensures
        k < u.len(),
        u[k].kind != '-',
        ident_start(u, k, false) == (Scan {
            end: u.len() as int,
            text: ident_start(t, j, unit).text,
            failure: None,
        }),
{
    let c = t[j].kind;
    let s = ident_start(t, j, unit).text;
    let w = kinds(u).subrange(k, k + s.len());
    if is_name_start_spec(c) {
        let rest = body(t, j + 1, unit);
        assert(s[0] == c);
        assert(u[k].kind == w[0]);
        lemma_spells_split(u, k, seq![c], rest.text);
        lemma_body_text_reads_back(t, j + 1, unit, u, k + 1);
    } else {
        lemma_escape_end(t, j + 1);
        let e = escape(t, j + 1);
        let rest = body(t, e.end, unit);
        let v = if is_hex_spec(t[j + 1].kind) {
            hex_value(t, j + 1, hex_run(t, j + 1, 6))
        } else {
            t[j + 1].kind as nat
        };
        assert(e.text == encode(v));
        assert(s[0] == e.text[0]);
        assert(u[k].kind == w[0]);
        lemma_spells_split(u, k, encode(v), rest.text);
        lemma_body_text_reads_back(t, e.end, unit, u, k + encode(v).len());
        if is_name_spec(v as char) {
            assert(body(u, k + 1, false).text == rest.text);
        } else {
            lemma_written_escape_reads_back(u, k + 1, v);
        }
    }
}

/// The text of an identifier reads back as itself: tokens that spell the
/// text that a scan returned are read whole as an identifier outside
/// unit mode, and give the same text again. This is stated of the
/// identifiers whose first character is written plainly.
pub proof fn lemma_ident_text_reads_back(
    t: Seq<Token>,
    i: int,
    unit: bool,
    span_before: Span,
    u: Seq<Token>,
    span_again: Span,
)
    requires
        0 <= i,
        ident(t, i, unit, span_before).failure.is_none(),
        plain_start(t, start_of(t, i)),
        spells(u, 0, ident(t, i, unit, span_before).text),
        ident(t, i, unit, span_before).text.len() == u.len(),
    ensures
        ident(u, 0, false, span_again) == (Scan {
            end: u.len() as int,
            text: ident(t, i, unit, span_before).text,
            failure: None,
        }),
{
    let s = ident(t, i, unit, span_before).text;
    let w = kinds(u).subrange(0, s.len() as int);
    if t[i].kind == '-' {
        assert(s[0] == '-');
        assert(u[0].kind == w[0]);
        if i + 1 >= t.len() {
            assert(s =~= seq!['-']);
        } else if t[i + 1].kind == '-' {
            let rest = body(t, i + 2, unit);
            assert(s[1] == '-');
            assert(u[1].kind == w[1]);
            lemma_spells_split(u, 0, seq!['-', '-'], rest.text);
            lemma_body_text_reads_back(t, i + 2, unit, u, 2);
        } else {
            let rest = ident_start(t, i + 1, unit);
            lemma_spells_split(u, 0, seq!['-'], rest.text);
            lemma_start_reads_back(t, i + 1, unit, u, 1);
        }
    } else {
        assert(Seq::<char>::empty() + s =~= s);
        lemma_start_reads_back(t, i, unit, u, 0);
    }
}

pub proof fn lemma_prepend_twice(a: Seq<char>, b: Seq<char>, s: Scan)
    ensures
        prepend(a, prepend(b, s)) == prepend(a + b, s),
{
    assert(a + (b + s.text) =~= (a + b) + s.text);
}

pub proof fn lemma_prepend_stop(a: Seq<char>, i: int)
    ensures
        prepend(a, stop(i)) == (Scan { end: i, text: a, failure: None }),
{
    assert(a + Seq::<char>::empty() =~= a);
}

/// Commits tokens until the lookahead cursor stands on a newline or at
/// the end of the buffer.
pub fn peek_until_newline(toks: &mut Lexer)
    requires
        old(toks).wf(),
    ensures
        final(toks).wf(),
        final(toks).tokens() == old(toks).tokens(),
        final(toks).lookahead_pos() == next_newline(old(toks).tokens(), old(toks).lookahead_pos()),
        final(toks).committed_pos() == if final(toks).lookahead_pos() == old(toks).lookahead_pos() {
            old(toks).committed_pos()
        } else {
            final(toks).lookahead_pos()
        },
{
    let ghost t = toks.tokens();
    let ghost c0 = toks.committed_pos();
    let ghost l0 = toks.lookahead_pos();
    proof {
        toks.lemma_cursor_order();
    }
    let mut more = true;
    while more
        invariant
            toks.wf(),
            toks.tokens() == t,
            0 <= c0 <= l0 <= t.len(),
            l0 <= toks.lookahead_pos() <= t.len(),
            next_newline(t, l0) == next_newline(t, toks.lookahead_pos()),
            (toks.lookahead_pos() == l0 && c0 <= toks.committed_pos() <= l0) || (
            toks.committed_pos() == toks.lookahead_pos() && l0 < toks.lookahead_pos()),
            toks.committed_pos() != c0 ==> l0 < t.len() && t[l0].kind != '\n',
            !more ==> toks.lookahead_pos() >= t.len() || t[toks.lookahead_pos()].kind == '\n',
        decreases t.len() - toks.committed_pos() + (if more { 1int } else { 0int }),
    {
        proof {
            toks.lemma_cursor_order();
        }
        match toks.peek() {
            None => {
                more = false;
            },
            Some(tok) => {
                if tok.kind == '\n' {
                    more = false;
                } else {
                    toks.advance_cursor();
                }
            },
        }
    }
}

/// The text for an escaped character.
pub fn encode_escape(c: char) -> (r: String)
    ensures
        r@ == encode(c as nat),
{
    let value: u32 = c as u32;
    let mut buf = String::new();
    if is_name(c) {
        buf.push(c);
        assert(buf@ =~= seq![c]);
    } else if value <= 0x1F || value == 0x7F {
        buf.push('\\');
        if value > 0xF {
            buf.push(hex_char_for(value / 16));
        }
        buf.push(hex_char_for(value % 16));
        buf.push(' ');
        assert(buf@ =~= encode(c as nat));
    } else {
        buf.push('\\');
        buf.push(c);
        assert(buf@ =~= seq!['\\', c]);
    }
    buf
}

/// Decodes one escape sequence from the lookahead cursor, which stands
/// just behind the backslash, and moves the cursor past what it read.
pub fn peek_escape(toks: &mut Lexer) -> (r: Result<String, Error>)
    requires
        old(toks).wf(),
    ensures
        final(toks).wf(),
        final(toks).tokens() == old(toks).tokens(),
        final(toks).committed_pos() == old(toks).committed_pos(),
        final(toks).lookahead_pos() == escape(old(toks).tokens(), old(toks).lookahead_pos()).end,
        text_matches(r, escape(old(toks).tokens(), old(toks).lookahead_pos())),
{
    let ghost t = toks.tokens();
    let ghost i0 = toks.lookahead_pos();
    proof {
        toks.lemma_cursor_order();
    }
    let first = match toks.peek() {
        Some(tok) => tok,
        None => {
            return Ok(String::new());
        },
    };
    if first.kind == '\n' {
        return Err(Error::from_text("Expected escape sequence.", first.pos));
    }
    if !is_hex_digit(first.kind) {
        toks.peek_forward(1);
        return Ok(encode_escape(first.kind));
    }
    let mut value: u32 = 0;
    let mut span: Span = first.pos;
    let mut n: usize = 0;
    let mut more = true;
    while n < 6 && more
        invariant
            toks.wf(),
            toks.tokens() == t,
            toks.committed_pos() == old(toks).committed_pos(),
            0 <= i0 < t.len(),
            n <= 6,
            toks.lookahead_pos() == i0 + n,
            i0 + n <= t.len(),
            hex_run(t, i0, 6) == n + hex_run(t, i0 + n, (6 - n) as nat),
            value == hex_value(t, i0, n as nat),
            n == 0 ==> value == 0,
            n == 1 ==> value < 0x10,
            n == 2 ==> value < 0x100,
            n == 3 ==> value < 0x1000,
            n == 4 ==> value < 0x10000,
            n == 5 ==> value < 0x100000,
            n == 6 ==> value < 0x1000000,
            span == span_over(t, i0, i0 + n),
            !more ==> hex_run(t, i0 + n, (6 - n) as nat) == 0,
        decreases 6 - n + (if more { 1int } else { 0int }),
    {
        match toks.peek() {
            None => {
                more = false;
            },
            Some(next) => {
                if is_hex_digit(next.kind) {
                    value = value * 16 + as_hex(next.kind);
                    span = span.merge(next.pos);
                    toks.peek_forward(1);
                    n = n + 1;
                } else {
                    more = false;
                }
            },
        }
    }
    match toks.peek() {
        None => {},
        Some(next) => {
            if is_whitespace(next.kind) {
                toks.peek_forward(1);
            }
        },
    }
    match char::from_u32(value) {
        Some(c) => Ok(encode_escape(c)),
        None => Err(Error::from_text("Invalid escape sequence.", span)),
    }
}

/// The merge of the positions of the tokens from `from` up to `to`.
pub fn span_between(toks: &Lexer, from: usize, to: usize) -> (r: Span)
    requires
        from < to <= toks.tokens().len(),
    ensures
        r == span_over(toks.tokens(), from as int, to as int),
{
    let mut span: Span = match toks.get(from) {
        Some(tok) => tok.pos,
        None => Span::new(0, 0),
    };
    let mut k: usize = from + 1;
    while k < to
        invariant
            from < k <= to <= toks.tokens().len(),
            span == span_over(toks.tokens(), from as int, k as int),
        decreases to - k,
    {
        match toks.get(k) {
            Some(tok) => {
                span = span.merge(tok.pos);
            },
            None => {},
        }
        k = k + 1;
    }
    span
}

/// What [`peek_ident_body_no_interpolation`] returns for the scan `s` of
/// the body from `start`, when it was handed `span`.
pub open spec fn body_matches(
    r: Result<Spanned<String>, Error>,
    s: Scan,
    t: Seq<Token>,
    start: int,
    span: Span,
) -> bool {
    match r {
        Ok(found) => s.failure.is_none() && found.node@ == s.text && found.span == if s.end
            > start {
            span.merge_spec(span_over(t, start, s.end))
        } else {
            span
        },
        Err(e) => s.failure == Some((e.message@, e.span)),
    }
}

/// Scans the body of an identifier from the lookahead cursor. The span
/// returned is `span` merged with the positions of the tokens read.
pub fn peek_ident_body_no_interpolation(toks: &mut Lexer, unit: bool, span: Span) -> (r: Result<
    Spanned<String>,
    Error,
>)
    requires
        old(toks).wf(),
    ensures
        final(toks).wf(),
        final(toks).tokens() == old(toks).tokens(),
        final(toks).committed_pos() == old(toks).committed_pos(),
        final(toks).lookahead_pos() == body(
            old(toks).tokens(),
            old(toks).lookahead_pos(),
            unit,
        ).end,
        old(toks).lookahead_pos() <= final(toks).lookahead_pos() <= old(toks).tokens().len(),
        body_matches(
            r,
            body(old(toks).tokens(), old(toks).lookahead_pos(), unit),
            old(toks).tokens(),
            old(toks).lookahead_pos(),
            span,
        ),
{
    let ghost t = toks.tokens();
    let ghost i0 = toks.lookahead_pos();
    proof {
        toks.lemma_cursor_order();
        assert(Seq::<char>::empty() + body(t, i0, unit).text =~= body(t, i0, unit).text);
    }
    let start: usize = toks.lookahead();
    let len: usize = toks.len();
    let mut text = String::new();
    let mut more = true;
    while more
        invariant
            toks.wf(),
            toks.tokens() == t,
            toks.committed_pos() == old(toks).committed_pos(),
            0 <= i0 <= toks.lookahead_pos() <= t.len(),
            start == i0,
            t == old(toks).tokens(),
            i0 == old(toks).lookahead_pos(),
            len == t.len(),
            more ==> body(t, i0, unit) == prepend(text@, body(t, toks.lookahead_pos(), unit)),
            !more ==> body(t, i0, unit) == (Scan {
                end: toks.lookahead_pos(),
                text: text@,
                failure: None,
            }),
        decreases t.len() - toks.lookahead_pos() + (if more { 1int } else { 0int }),
    {
        let cur: usize = toks.lookahead();
        let ghost rest = body(t, cur as int, unit);
        let ghost before = text@;
        match toks.peek() {
            None => {
                more = false;
                proof {
                    lemma_prepend_stop(before, cur as int);
                }
            },
            Some(tok) => {
                assert(cur < len);
                let boundary = unit && tok.kind == '-' && match toks.get(cur + 1) {
                    Some(second) => second.kind == '.' || is_digit(second.kind),
                    None => false,
                };
                if boundary {
                    more = false;
                    proof {
                        lemma_prepend_stop(before, cur as int);
                    }
                } else if is_name(tok.kind) {
                    text.push(tok.kind);
                    toks.peek_forward(1);
                    proof {
                        lemma_prepend_twice(before, seq![tok.kind], body(t, cur + 1, unit));
                        assert(before + seq![tok.kind] =~= before.push(tok.kind));
                    }
                } else if tok.kind == '\\' {
                    toks.peek_forward(1);
                    proof {
                        lemma_escape_end(t, cur + 1);
                    }
                    match peek_escape(toks) {
                        Ok(piece) => {
                            text.append(piece.as_str());
                            proof {
                                let e = escape(t, cur + 1);
                                lemma_prepend_twice(before, e.text, body(t, e.end, unit));
                            }
                        },
                        Err(e) => {
                            return Err(e);
                        },
                    }
                } else {
                    more = false;
                    proof {
                        lemma_prepend_stop(before, cur as int);
                    }
                }
            },
        }
    }
    let end: usize = toks.lookahead();
    let whole: Span = if end > start {
        span.merge(span_between(toks, start, end))
    } else {
        span
    };
    Ok(Spanned { node: text, span: whole })
}

/// What [`peek_ident_no_interpolation`] returns for the scan `s` of the
/// identifier from `start`.
pub open spec fn ident_matches(
    r: Result<Spanned<String>, Error>,
    s: Scan,
    t: Seq<Token>,
    start: int,
) -> bool {
    match r {
        Ok(found) => s.failure.is_none() && found.node@ == s.text && found.span == span_over(
            t,
            start,
            s.end,
        ),
        Err(e) => s.failure == Some((e.message@, e.span)),
    }
}

/// Scans one identifier from the lookahead cursor: its text with the
/// escapes decoded, and the merge of the positions of every token read.
/// In unit mode a `-` before a `.` or a digit is left unread.
pub fn peek_ident_no_interpolation(toks: &mut Lexer, unit: bool, span_before: Span) -> (r: Result<
    Spanned<String>,
    Error,
>)
    requires
        old(toks).wf(),
    ensures
        final(toks).wf(),
        final(toks).tokens() == old(toks).tokens(),
        final(toks).committed_pos() == old(toks).committed_pos(),
        final(toks).lookahead_pos() == ident(
            old(toks).tokens(),
            old(toks).lookahead_pos(),
            unit,
            span_before,
        ).end,
        ident_matches(
            r,
            ident(old(toks).tokens(), old(toks).lookahead_pos(), unit, span_before),
            old(toks).tokens(),
            old(toks).lookahead_pos(),
        ),
{
    let ghost t = toks.tokens();
    let ghost i0 = toks.lookahead_pos();
    proof {
        toks.lemma_cursor_order();
    }
    let start: usize = toks.lookahead();
    let mut first = match toks.peek() {
        Some(tok) => tok,
        None => {
            return Err(Error::from_text("Expected identifier.", span_before));
        },
    };
    let mut text = String::new();
    if first.kind == '-' {
        text.push('-');
        match toks.peek_forward(1) {
            None => {
                assert(text@ =~= seq!['-']);
                return Ok(Spanned { node: text, span: first.pos });
            },
            Some(second) => {
                if second.kind == '-' {
                    toks.peek_forward(1);
                    text.push('-');
                    assert(text@ =~= seq!['-', '-']);
                    let rest = peek_ident_body_no_interpolation(toks, unit, first.pos);
                    return finish_ident(toks, start, text, rest);
                }
                first = second;
            },
        }
    }
    let ghost prefix = text@;
    let ghost j = toks.lookahead_pos();
    assert(prefix =~= if j == i0 { Seq::<char>::empty() } else { seq!['-'] });
    assert(ident(t, i0, unit, span_before) == prepend(prefix, ident_start(t, j, unit))) by {
        assert(Seq::<char>::empty() + ident_start(t, j, unit).text =~= ident_start(
            t,
            j,
            unit,
        ).text);
    }
    if is_name_start(first.kind) {
        text.push(first.kind);
        toks.peek_forward(1);
        proof {
            lemma_prepend_twice(prefix, seq![first.kind], body(t, j + 1, unit));
            assert(prefix + seq![first.kind] =~= prefix.push(first.kind));
        }
    } else if first.kind == '\\' {
        toks.peek_forward(1);
        proof {
            lemma_escape_end(t, j + 1);
        }
        match peek_escape(toks) {
            Ok(piece) => {
                text.append(piece.as_str());
                proof {
                    let e = escape(t, j + 1);
                    lemma_prepend_twice(prefix, e.text, body(t, e.end, unit));
                }
            },
            Err(e) => {
                return Err(e);
            },
        }
    } else {
        return Err(Error::from_text("Expected identifier.", first.pos));
    }
    let rest = peek_ident_body_no_interpolation(toks, unit, first.pos);
    finish_ident(toks, start, text, rest)
}

/// Joins the text read so far to the outcome of the body, and spans all
/// that was read from `start`.
fn finish_ident(toks: &Lexer, start: usize, text: String, rest: Result<Spanned<String>, Error>) -> (r:
    Result<Spanned<String>, Error>)
    requires
        start < toks.lookahead_pos() <= toks.tokens().len(),
    ensures
        match rest {
            Ok(found) => match r {
                Ok(whole) => whole.node@ == text@ + found.node@ && whole.span == span_over(
                    toks.tokens(),
                    start as int,
                    toks.lookahead_pos(),
                ),
                Err(_) => false,
            },
            Err(e) => r == Err::<Spanned<String>, Error>(e),
        },
{
    match rest {
        Ok(found) => {
            let mut text = text;
            text.append(found.node.as_str());
            let end: usize = toks.lookahead();
            Ok(Spanned { node: text, span: span_between(toks, start, end) })
        },
        Err(e) => Err(e),
    }
}

} // verus!
