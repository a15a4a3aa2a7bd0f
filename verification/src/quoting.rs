//! Shell-safe quoting of single tokens for POSIX `sh`, and a double-quoted
//! rendering used for `cd` targets, together with a model of how a POSIX
//! shell lexes one word and the proof that quoting round-trips through it.

use vstd::prelude::*;

use crate::strutil::{chars_of, string_of};

verus! {

/// Characters that may stand bare (unquoted) in a POSIX shell word.
pub open spec fn is_plain_char(c: char) -> bool {
    ||| ('a' <= c && c <= 'z')
    ||| ('A' <= c && c <= 'Z')
    ||| ('0' <= c && c <= '9')
    ||| c == '+'
    ||| c == '-'
    ||| c == '.'
    ||| c == '/'
    ||| c == ':'
    ||| c == '@'
    ||| c == ']'
    ||| c == '_'
}

pub open spec fn all_plain(s: Seq<char>) -> bool {
    forall|i: int| 0 <= i < s.len() ==> is_plain_char(#[trigger] s[i])
}

pub open spec fn has_nul(s: Seq<char>) -> bool {
    exists|i: int| 0 <= i < s.len() && #[trigger] s[i] == '\0'
}

/// Replacement emitted for a single quote inside a single-quoted token:
/// close the quote, give `'` inside double quotes, reopen the quote.
pub open spec fn squote_rep() -> Seq<char> {
    seq!['\'', '"', '\'', '"', '\'']
}

/// Body of a single-quoted token: every character carried over verbatim,
/// except `'` which becomes `squote_rep()`.
pub open spec fn squote_body(s: Seq<char>) -> Seq<char>
    decreases s.len(),
{
    if s.len() == 0 {
        Seq::empty()
    } else {
        (if s[0] == '\'' {
            squote_rep()
        } else {
            seq![s[0]]
        }) + squote_body(s.drop_first())
    }
}

/// What `shell_quote` returns: the empty token as `""`, a fully plain token
/// unchanged, anything else wrapped in single quotes with embedded `'`
/// rewritten.
pub open spec fn quote_spec(s: Seq<char>) -> Seq<char> {
    if s.len() == 0 {
        seq!['"', '"']
    } else if all_plain(s) {
        s
    } else {
        seq!['\''] + squote_body(s) + seq!['\'']
    }
}

proof fn lemma_squote_body_concat(a: Seq<char>, b: Seq<char>)
    ensures
        squote_body(a + b) == squote_body(a) + squote_body(b),
    decreases a.len(),
{
    if a.len() == 0 {
        assert(a + b =~= b);
        assert(squote_body(a) + squote_body(b) =~= squote_body(b));
    } else {
        assert((a + b).drop_first() =~= a.drop_first() + b);
        lemma_squote_body_concat(a.drop_first(), b);
        assert((a + b)[0] == a[0]);
        assert(squote_body(a + b) =~= squote_body(a) + squote_body(b));
    }
}

/// Is `c` in the plain set? (executable form)
pub fn plain_char(c: char) -> (r: bool)
    ensures
        r == is_plain_char(c),
{
    ('a' <= c && c <= 'z') || ('A' <= c && c <= 'Z') || ('0' <= c && c <= '9') || c == '+' || c
        == '-' || c == '.' || c == '/' || c == ':' || c == '@' || c == ']' || c == '_'
}

/// Shell-quote one token for POSIX `sh`.
///
/// Returns `None` exactly when the token holds a NUL byte, which no shell
/// word can carry; such a token cannot be safely quoted.
pub fn shell_quote(s: &str) -> (r: Option<String>)
    ensures
        r is Some <==> !has_nul(s@),
        r matches Some(q) ==> q@ == quote_spec(s@),
{
    let cs = chars_of(s);
    let mut i: usize = 0;
    let mut saw_nul = false;
    let mut plain = true;
    while i < cs.len()
        invariant
            cs@ == s@,
            i <= cs@.len(),
            saw_nul == exists|j: int| 0 <= j < i && #[trigger] cs@[j] == '\0',
            plain == forall|j: int| 0 <= j < i ==> is_plain_char(#[trigger] cs@[j]),
        decreases cs@.len() - i,
    {
        if cs[i] == '\0' {
            saw_nul = true;
        }
        if !plain_char(cs[i]) {
            plain = false;
        }
        i += 1;
    }
    if saw_nul {
        assert(has_nul(s@));
        return None;
    }
    assert(!has_nul(s@));
    if cs.len() == 0 {
        let mut out: Vec<char> = Vec::new();
        out.push('"');
        out.push('"');
        proof {
            assert(out@ =~= quote_spec(s@));
        }
        return Some(string_of(&out));
    }
    if plain {
        assert(all_plain(s@));
        let mut out: Vec<char> = Vec::new();
        let mut copy = chars_of(s);
        out.append(&mut copy);
        proof {
            assert(out@ =~= quote_spec(s@));
        }
        return Some(string_of(&out));
    }
    let mut out: Vec<char> = Vec::new();
    out.push('\'');
    let mut k: usize = 0;
    while k < cs.len()
        invariant
            cs@ == s@,
            k <= cs@.len(),
            out@ == seq!['\''] + squote_body(cs@.subrange(0, k as int)),
        decreases cs@.len() - k,
    {
        proof {
            reveal_with_fuel(squote_body, 3);
            assert(cs@.subrange(0, k + 1 as int) =~= cs@.subrange(0, k as int) + seq![cs@[k as int]]);
            lemma_squote_body_concat(cs@.subrange(0, k as int), seq![cs@[k as int]]);
            assert(seq![cs@[k as int]].drop_first() =~= Seq::<char>::empty());
        }
        if cs[k] == '\'' {
            out.push('\'');
            out.push('"');
            out.push('\'');
            out.push('"');
            out.push('\'');
            proof {
                assert(squote_body(seq![cs@[k as int]]) =~= squote_rep());
                assert(out@ =~= seq!['\''] + squote_body(cs@.subrange(0, k + 1 as int)));
            }
        } else {
            out.push(cs[k]);
            proof {
                assert(squote_body(seq![cs@[k as int]]) =~= seq![cs@[k as int]]);
                assert(out@ =~= seq!['\''] + squote_body(cs@.subrange(0, k + 1 as int)));
            }
        }
        k += 1;
    }
    out.push('\'');
    proof {
        assert(cs@.subrange(0, cs@.len() as int) =~= cs@);
        assert(out@ =~= seq!['\''] + squote_body(s@) + seq!['\'']);
        assert(!all_plain(s@));
    }
    Some(string_of(&out))
}

/// Lowercase hexadecimal digit for a value below sixteen.
pub open spec fn hex_digit(n: int) -> char {
    if n == 0 {
        '0'
    } else if n == 1 {
        '1'
    } else if n == 2 {
        '2'
    } else if n == 3 {
        '3'
    } else if n == 4 {
        '4'
    } else if n == 5 {
        '5'
    } else if n == 6 {
        '6'
    } else if n == 7 {
        '7'
    } else if n == 8 {
        '8'
    } else if n == 9 {
        '9'
    } else if n == 10 {
        'a'
    } else if n == 11 {
        'b'
    } else if n == 12 {
        'c'
    } else if n == 13 {
        'd'
    } else if n == 14 {
        'e'
    } else {
        'f'
    }
}

/// Escaping used by `debug_quote` for one character, the way a Rust debug
/// formatter writes a string: quotes, backslashes and the named control
/// characters by their short escapes, every other control character (and
/// delete) as `\u{..}` in lowercase hex; everything else verbatim.
pub open spec fn dq_escape(c: char) -> Seq<char> {
    if c == '"' {
        seq!['\\', '"']
    } else if c == '\\' {
        seq!['\\', '\\']
    } else if c == '\n' {
        seq!['\\', 'n']
    } else if c == '\r' {
        seq!['\\', 'r']
    } else if c == '\t' {
        seq!['\\', 't']
    } else if c == '\0' {
        seq!['\\', '0']
    } else if (c as u32) < 0x10 {
        seq!['\\', 'u', '{', hex_digit((c as u32) as int), '}']
    } else if (c as u32) < 0x20 {
        seq!['\\', 'u', '{', '1', hex_digit((c as u32) as int - 0x10), '}']
    } else if c as u32 == 0x7f {
        seq!['\\', 'u', '{', '7', 'f', '}']
    } else {
        seq![c]
    }
}

/// Lowercase hexadecimal digit of `n`.
pub fn hex_digit_char(n: u32) -> (r: char)
    requires
        n < 16,
    ensures
        r == hex_digit(n as int),
{
    if n == 0 {
        '0'
    } else if n == 1 {
        '1'
    } else if n == 2 {
        '2'
    } else if n == 3 {
        '3'
    } else if n == 4 {
        '4'
    } else if n == 5 {
        '5'
    } else if n == 6 {
        '6'
    } else if n == 7 {
        '7'
    } else if n == 8 {
        '8'
    } else if n == 9 {
        '9'
    } else if n == 10 {
        'a'
    } else if n == 11 {
        'b'
    } else if n == 12 {
        'c'
    } else if n == 13 {
        'd'
    } else if n == 14 {
        'e'
    } else {
        'f'
    }
}

pub open spec fn dq_body(s: Seq<char>) -> Seq<char>
    decreases s.len(),
{
    if s.len() == 0 {
        Seq::empty()
    } else {
        dq_escape(s[0]) + dq_body(s.drop_first())
    }
}

/// A path rendered the way a Rust-style debug formatter writes a string:
/// wrapped in double quotes with the characters of `dq_escape` escaped.
pub open spec fn debug_quote_spec(s: Seq<char>) -> Seq<char> {
    seq!['"'] + dq_body(s) + seq!['"']
}

proof fn lemma_dq_body_concat(a: Seq<char>, b: Seq<char>)
    ensures
        dq_body(a + b) == dq_body(a) + dq_body(b),
    decreases a.len(),
{
    if a.len() == 0 {
        assert(a + b =~= b);
        assert(dq_body(a) + dq_body(b) =~= dq_body(b));
    } else {
        assert((a + b).drop_first() =~= a.drop_first() + b);
        lemma_dq_body_concat(a.drop_first(), b);
        assert((a + b)[0] == a[0]);
        assert(dq_body(a + b) =~= dq_body(a) + dq_body(b));
    }
}

/// Append the debug escape of one character.
fn push_dq_escape(out: &mut Vec<char>, c: char)
    ensures
        final(out)@ == old(out)@ + dq_escape(c),
{
    if c == '"' {
        out.push('\\');
        out.push('"');
    } else if c == '\\' {
        out.push('\\');
        out.push('\\');
    } else if c == '\n' {
        out.push('\\');
        out.push('n');
    } else if c == '\r' {
        out.push('\\');
        out.push('r');
    } else if c == '\t' {
        out.push('\\');
        out.push('t');
    } else if c == '\0' {
        out.push('\\');
        out.push('0');
    } else if (c as u32) < 0x10 {
        out.push('\\');
        out.push('u');
        out.push('{');
        out.push(hex_digit_char(c as u32));
        out.push('}');
    } else if (c as u32) < 0x20 {
        out.push('\\');
        out.push('u');
        out.push('{');
        out.push('1');
        out.push(hex_digit_char(c as u32 - 0x10));
        out.push('}');
    } else if c as u32 == 0x7f {
        out.push('\\');
        out.push('u');
        out.push('{');
        out.push('7');
        out.push('f');
        out.push('}');
    } else {
        out.push(c);
    }
    proof {
        assert(out@ =~= old(out)@ + dq_escape(c));
    }
}

/// Double-quoted rendering of a path for a `cd` command, in the style of a
/// Rust debug formatter.  Unlike `shell_quote` this never fails: every
/// character has a rendering.
pub fn debug_quote(s: &str) -> (r: String)
    ensures
        r@ == debug_quote_spec(s@),
{
    let cs = chars_of(s);
    let mut out: Vec<char> = Vec::new();
    out.push('"');
    let mut k: usize = 0;
    while k < cs.len()
        invariant
            cs@ == s@,
            k <= cs@.len(),
            out@ == seq!['"'] + dq_body(cs@.subrange(0, k as int)),
        decreases cs@.len() - k,
    {
        proof {
            reveal_with_fuel(dq_body, 3);
            assert(cs@.subrange(0, k + 1 as int) =~= cs@.subrange(0, k as int) + seq![cs@[k as int]]);
            lemma_dq_body_concat(cs@.subrange(0, k as int), seq![cs@[k as int]]);
            assert(seq![cs@[k as int]].drop_first() =~= Seq::<char>::empty());
            assert(dq_body(seq![cs@[k as int]]) =~= dq_escape(cs@[k as int]));
        }
        push_dq_escape(&mut out, cs[k]);
        proof {
            assert(out@ =~= seq!['"'] + dq_body(cs@.subrange(0, k + 1 as int)));
        }
        k += 1;
    }
    out.push('"');
    proof {
        assert(cs@.subrange(0, cs@.len() as int) =~= cs@);
        assert(out@ =~= debug_quote_spec(s@));
    }
    string_of(&out)
}

/// Lexer modes of the POSIX word model: outside quotes, inside single
/// quotes, inside double quotes.
pub enum LexMode {
    Out,
    Single,
    Double,
}

pub open spec fn opt_prepend(s: Seq<char>, o: Option<Seq<char>>) -> Option<Seq<char>> {
    match o {
        Some(w) => Some(s + w),
        None => None,
    }
}

/// How a POSIX shell lexes one word.  Bare characters are accepted only from
/// the plain set; any other bare character (whitespace, an operator, `$`,
/// a backslash, …) makes the input no longer a single literal word, and the
/// model answers `None`.  Inside double quotes, `$`, backquote and backslash
/// keep their special meaning, so the model rejects them there too; this
/// lexer accepts exactly words whose parse is one literal string.
pub open spec fn parse_word(q: Seq<char>, m: LexMode) -> Option<Seq<char>>
    decreases q.len(),
{
    if q.len() == 0 {
        match m {
            LexMode::Out => Some(Seq::empty()),
            _ => None,
        }
    } else {
        let c = q[0];
        let rest = q.drop_first();
        match m {
            LexMode::Out => {
                if c == '\'' {
                    parse_word(rest, LexMode::Single)
                } else if c == '"' {
                    parse_word(rest, LexMode::Double)
                } else if is_plain_char(c) {
                    opt_prepend(seq![c], parse_word(rest, LexMode::Out))
                } else {
                    None
                }
            },
            LexMode::Single => {
                if c == '\'' {
                    parse_word(rest, LexMode::Out)
                } else {
                    opt_prepend(seq![c], parse_word(rest, LexMode::Single))
                }
            },
            LexMode::Double => {
                if c == '"' {
                    parse_word(rest, LexMode::Out)
                } else if c == '$' || c == '`' || c == '\\' {
                    None
                } else {
                    opt_prepend(seq![c], parse_word(rest, LexMode::Double))
                }
            },
        }
    }
}

proof fn lemma_parse_plain(s: Seq<char>)
    requires
        all_plain(s),
    ensures
        parse_word(s, LexMode::Out) == Some(s),
    decreases s.len(),
{
    reveal_with_fuel(parse_word, 3);
    if s.len() == 0 {
        assert(s =~= Seq::<char>::empty());
    } else {
        assert(is_plain_char(s[0]));
        assert(s[0] != '\'' && s[0] != '"');
        assert(all_plain(s.drop_first())) by {
            assert(forall|i: int|
                0 <= i < s.drop_first().len() ==> #[trigger] s.drop_first()[i] == s[i + 1]);
        }
        lemma_parse_plain(s.drop_first());
        assert(seq![s[0]] + s.drop_first() =~= s);
    }
}

proof fn lemma_parse_rep(x: Seq<char>)
    ensures
        parse_word(squote_rep() + x, LexMode::Single) == opt_prepend(
            seq!['\''],
            parse_word(x, LexMode::Single),
        ),
{
    reveal_with_fuel(parse_word, 6);
    let q = squote_rep() + x;
    assert(q[0] == '\'' && q[1] == '"' && q[2] == '\'' && q[3] == '"' && q[4] == '\'');
    let q1 = q.drop_first();
    let q2 = q1.drop_first();
    let q3 = q2.drop_first();
    let q4 = q3.drop_first();
    let q5 = q4.drop_first();
    assert(q5 =~= x);
    assert(q1[0] == '"' && q2[0] == '\'' && q3[0] == '"' && q4[0] == '\'');
    assert(parse_word(q, LexMode::Single) == parse_word(q1, LexMode::Out));
    assert(parse_word(q1, LexMode::Out) == parse_word(q2, LexMode::Double));
    assert(parse_word(q2, LexMode::Double) == opt_prepend(
        seq!['\''],
        parse_word(q3, LexMode::Double),
    ));
    assert(parse_word(q3, LexMode::Double) == parse_word(q4, LexMode::Out));
    assert(parse_word(q4, LexMode::Out) == parse_word(q5, LexMode::Single));
}

proof fn lemma_parse_single_body(s: Seq<char>, tail: Seq<char>)
    ensures
        parse_word(squote_body(s) + tail, LexMode::Single) == opt_prepend(
            s,
            parse_word(tail, LexMode::Single),
        ),
    decreases s.len(),
{
    reveal_with_fuel(parse_word, 2);
    reveal_with_fuel(squote_body, 2);
    let pt = parse_word(tail, LexMode::Single);
    if s.len() == 0 {
        assert(squote_body(s) + tail =~= tail);
        match pt {
            Some(w) => {
                assert(s + w =~= w);
            },
            None => {},
        }
    } else {
        let s1 = s.drop_first();
        lemma_parse_single_body(s1, tail);
        let r1 = squote_body(s1) + tail;
        if s[0] == '\'' {
            let q = squote_body(s) + tail;
            assert(q =~= squote_rep() + r1);
            lemma_parse_rep(r1);
            match pt {
                Some(w) => {
                    assert(seq!['\''] + (s1 + w) =~= s + w);
                },
                None => {},
            }
        } else {
            let q = squote_body(s) + tail;
            assert(q =~= seq![s[0]] + r1);
            assert(q[0] == s[0]);
            assert(q.drop_first() =~= r1);
            match pt {
                Some(w) => {
                    assert(seq![s[0]] + (s1 + w) =~= s + w);
                },
                None => {},
            }
        }
    }
}

/// Quoting round-trip: a token produced by `quote_spec` is lexed by a POSIX
/// shell as exactly one word, and that word is the original token.
pub proof fn lemma_quote_round_trip(s: Seq<char>)
    ensures
        parse_word(quote_spec(s), LexMode::Out) == Some(s),
{
    reveal_with_fuel(parse_word, 4);
    if s.len() == 0 {
        let q = quote_spec(s);
        assert(q[0] == '"');
        let q1 = q.drop_first();
        assert(q1[0] == '"');
        assert(q1.drop_first() =~= Seq::<char>::empty());
        assert(s =~= Seq::<char>::empty());
    } else if all_plain(s) {
        lemma_parse_plain(s);
    } else {
        let q = quote_spec(s);
        assert(q =~= seq!['\''] + (squote_body(s) + seq!['\'']));
        assert(q[0] == '\'');
        assert(q.drop_first() =~= squote_body(s) + seq!['\'']);
        lemma_parse_single_body(s, seq!['\'']);
        let t: Seq<char> = seq!['\''];
        assert(t[0] == '\'');
        assert(t.drop_first() =~= Seq::<char>::empty());
        assert(parse_word(t, LexMode::Single) == Some(Seq::<char>::empty()));
        assert(s + Seq::<char>::empty() =~= s);
    }
}

} // verus!
