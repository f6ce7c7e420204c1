use vstd::prelude::*;
use crate::decimal::digit_char;
use crate::text::push_char;

verus! {

/// Lower-case hexadecimal digit for `n` (0..=15).
pub open spec fn hex_digit(n: nat) -> char {
    if n < 10 {
        digit_char(n)
    } else {
        ((n - 10 + 'a' as nat) as u32) as char
    }
}

pub open spec fn is_hex_lower(c: char) -> bool {
    ('0' <= c && c <= '9') || ('a' <= c && c <= 'f')
}

pub open spec fn hex_value(c: char) -> nat {
    if c <= '9' {
        (c as nat - '0' as nat) as nat
    } else {
        (c as nat - 'a' as nat + 10) as nat
    }
}

/// The letter of the two-character escape of `c`, for the characters that have one.
pub open spec fn short_escape(c: char) -> Option<char> {
    if c == '"' {
        Some('"')
    } else if c == '\\' {
        Some('\\')
    } else if c == '\x08' {
        Some('b')
    } else if c == '\x0c' {
        Some('f')
    } else if c == '\n' {
        Some('n')
    } else if c == '\r' {
        Some('r')
    } else if c == '\t' {
        Some('t')
    } else {
        None
    }
}

/// The character that the escape letter `e` stands for.
pub open spec fn unshort(e: char) -> Option<char> {
    if e == '"' {
        Some('"')
    } else if e == '\\' {
        Some('\\')
    } else if e == 'b' {
        Some('\x08')
    } else if e == 'f' {
        Some('\x0c')
    } else if e == 'n' {
        Some('\n')
    } else if e == 'r' {
        Some('\r')
    } else if e == 't' {
        Some('\t')
    } else {
        None
    }
}

/// How one character is written inside a JSON string literal.
pub open spec fn escape_char(c: char) -> Seq<char> {
    match short_escape(c) {
        Some(e) => seq!['\\', e],
        None => if (c as u32) < 0x20 {
            seq!['\\', 'u', '0', '0', hex_digit((c as u32) as nat / 16), hex_digit((c as u32) as nat % 16)]
        } else {
            seq![c]
        },
    }
}

/// The body of the JSON string literal for `s` (without the quotes).
pub open spec fn escape(s: Seq<char>) -> Seq<char>
    decreases s.len(),
{
    if s.len() == 0 {
        seq![]
    } else {
        escape_char(s[0]) + escape(s.drop_first())
    }
}

pub open spec fn prepend(c: char, r: Option<Seq<char>>) -> Option<Seq<char>> {
    match r {
        Some(t) => Some(seq![c] + t),
        None => None,
    }
}

pub open spec fn prefix_with(p: Seq<char>, r: Option<Seq<char>>) -> Option<Seq<char>> {
    match r {
        Some(t) => Some(p + t),
        None => None,
    }
}

/// The code of a `\u00XX` escape at the front of `e`, when it is one that
/// `escape_char` writes.
pub open spec fn unicode_escape(e: Seq<char>) -> Option<nat> {
    if e.len() >= 6 && e[0] == '\\' && e[1] == 'u' && e[2] == '0' && e[3] == '0' && is_hex_lower(
        e[4],
    ) && is_hex_lower(e[5]) && hex_value(e[4]) <= 1 {
        let v = hex_value(e[4]) * 16 + hex_value(e[5]);
        if short_escape((v as u32) as char) is None {
            Some(v)
        } else {
            None
        }
    } else {
        None
    }
}

/// Reads the body of a JSON string literal in the form that `escape`
/// writes; any other form is refused.
pub open spec fn unescape(e: Seq<char>) -> Option<Seq<char>>
    decreases e.len(),
{
    if e.len() == 0 {
        Some(seq![])
    } else if e[0] == '\\' {
        if e.len() >= 2 && unshort(e[1]) is Some {
            prepend(unshort(e[1])->0, unescape(e.skip(2)))
        } else if unicode_escape(e) is Some {
            prepend((unicode_escape(e)->0 as u32) as char, unescape(e.skip(6)))
        } else {
            None
        }
    } else if e[0] == '"' || (e[0] as u32) < 0x20 {
        None
    } else {
        prepend(e[0], unescape(e.skip(1)))
    }
}

proof fn lemma_hex_digit(n: nat)
    requires
        n < 16,
    ensures
        is_hex_lower(hex_digit(n)),
        hex_value(hex_digit(n)) == n,
{
}

proof fn lemma_escape_char_reads_back(c: char, rest: Seq<char>)
    ensures
        unescape(escape_char(c) + rest) == prepend(c, unescape(rest)),
{
    let e = escape_char(c) + rest;
    let n = escape_char(c).len() as int;
    assert(e.skip(n) == rest);
    match short_escape(c) {
        Some(x) => {
            assert(e[0] == '\\');
            assert(e[1] == x);
        },
        None => {
            if (c as u32) < 0x20 {
                let hi = (c as u32) as nat / 16;
                let lo = (c as u32) as nat % 16;
                lemma_hex_digit(hi);
                lemma_hex_digit(lo);
                assert(e[4] == hex_digit(hi));
                assert(e[5] == hex_digit(lo));
                assert(hi * 16 + lo == (c as u32) as nat);
                vstd::utf8::char_u32_cast(c, (hi * 16 + lo) as u32);
                assert(unicode_escape(e) == Some((c as u32) as nat));
            } else {
                assert(e[0] == c);
            }
        },
    }
}

proof fn lemma_escape_concat(a: Seq<char>, b: Seq<char>)
    ensures
        escape(a + b) == escape(a) + escape(b),
    decreases a.len(),
{
    if a.len() > 0 {
        assert((a + b).drop_first() == a.drop_first() + b);
        lemma_escape_concat(a.drop_first(), b);
        assert((a + b)[0] == a[0]);
    } else {
        assert(a + b == b);
    }
}

/// The body written for `s` reads back as `s`.
pub proof fn lemma_escape_round_trip(s: Seq<char>)
    ensures
        unescape(escape(s)) == Some(s),
    decreases s.len(),
{
    if s.len() > 0 {
        lemma_escape_round_trip(s.drop_first());
        lemma_escape_char_reads_back(s[0], escape(s.drop_first()));
        assert(seq![s[0]] + s.drop_first() == s);
    }
}

/// A body that `unescape` accepts is the one `escape` writes for its result.
pub proof fn lemma_unescape_canonical(e: Seq<char>)
    requires
        unescape(e) is Some,
    ensures
        escape(unescape(e)->0) == e,
    decreases e.len(),
{
    if e.len() > 0 {
        let s = unescape(e)->0;
        if e[0] == '\\' {
            if e.len() >= 2 && unshort(e[1]) is Some {
                let c = unshort(e[1])->0;
                lemma_unescape_canonical(e.skip(2));
                assert(s == seq![c] + unescape(e.skip(2))->0);
                assert(s.drop_first() == unescape(e.skip(2))->0);
                assert(escape_char(c) == seq![e[0], e[1]]);
                assert(e == seq![e[0], e[1]] + e.skip(2));
            } else {
                let v = unicode_escape(e)->0;
                let c = (v as u32) as char;
                lemma_unescape_canonical(e.skip(6));
                assert(s.drop_first() == unescape(e.skip(6))->0);
                assert(s[0] == c);
                assert((c as u32) as nat == v);
                assert(v / 16 == hex_value(e[4]) && v % 16 == hex_value(e[5]));
                assert(hex_digit(hex_value(e[4])) == e[4]);
                assert(hex_digit(hex_value(e[5])) == e[5]);
                assert(escape_char(c) =~= e.take(6));
                assert(e == e.take(6) + e.skip(6));
            }
        } else {
            lemma_unescape_canonical(e.skip(1));
            assert(s.drop_first() == unescape(e.skip(1))->0);
            assert(escape_char(e[0]) == seq![e[0]]);
            assert(e == seq![e[0]] + e.skip(1));
        }
    }
}

fn hex_char(n: u32) -> (c: char)
    requires
        n < 16,
    ensures
        c == hex_digit(n as nat),
{
    if n < 10 {
        ((n as u8) + 48u8) as char
    } else {
        ((n as u8) + 87u8) as char
    }
}

/// Appends the JSON-escaped form of `s` to `out`.
pub fn push_escaped(out: &mut String, s: &[char])
    ensures
        final(out)@ == old(out)@ + escape(s@),
{
    let mut i: usize = 0;
    while i < s.len()
        invariant
            0 <= i <= s.len(),
            out@ == old(out)@ + escape(s@.take(i as int)),
        decreases s.len() - i,
    {
        let c = s[i];
        proof {
            assert(s@.take(i + 1) == s@.take(i as int) + seq![c]);
            lemma_escape_concat(s@.take(i as int), seq![c]);
            assert(seq![c].drop_first() == Seq::<char>::empty());
            assert(escape(seq![c]) == escape_char(c) + escape(Seq::<char>::empty()));
        }
        let ghost before = out@;
        if c == '"' || c == '\\' {
            push_char(out, '\\');
            push_char(out, c);
            assert(out@ =~= before + escape_char(c));
        } else if c == '\x08' {
            push_char(out, '\\');
            push_char(out, 'b');
            assert(out@ =~= before + escape_char(c));
        } else if c == '\x0c' {
            push_char(out, '\\');
            push_char(out, 'f');
            assert(out@ =~= before + escape_char(c));
        } else if c == '\n' {
            push_char(out, '\\');
            push_char(out, 'n');
            assert(out@ =~= before + escape_char(c));
        } else if c == '\r' {
            push_char(out, '\\');
            push_char(out, 'r');
            assert(out@ =~= before + escape_char(c));
        } else if c == '\t' {
            push_char(out, '\\');
            push_char(out, 't');
            assert(out@ =~= before + escape_char(c));
        } else if (c as u32) < 0x20 {
            let code: u32 = c as u32;
            push_char(out, '\\');
            push_char(out, 'u');
            push_char(out, '0');
            push_char(out, '0');
            push_char(out, hex_char(code / 16));
            push_char(out, hex_char(code % 16));
            assert(short_escape(c) is None);
            assert(out@ =~= before + escape_char(c));
        } else {
            push_char(out, c);
            assert(short_escape(c) is None);
            assert(out@ =~= before + escape_char(c));
        }
        assert(out@ =~= before + escape_char(c));
        i = i + 1;
    }
    assert(s@.take(s.len() as int) == s@);
}

fn hex_val(c: char) -> (v: u32)
    requires
        is_hex_lower(c),
    ensures
        v == hex_value(c),
        v < 16,
{
    if c <= '9' {
        (c as u32) - 48
    } else {
        (c as u32) - 87
    }
}

/// Reads a JSON string body in the form that `push_escaped` writes.
pub fn unescape_chars(e: &[char]) -> (r: Option<String>)
    ensures
        match r {
            Some(s) => unescape(e@) == Some(s@),
            None => unescape(e@) is None,
        },
{
    let mut out = String::new();
    let mut i: usize = 0;
    proof {
        assert(e@.skip(0) == e@);
        match unescape(e@) {
            Some(t) => {
                assert(out@ + t == t);
            },
            None => {},
        }
    }
    while i < e.len()
        invariant
            0 <= i <= e.len(),
            unescape(e@) == prefix_with(out@, unescape(e@.skip(i as int))),
        decreases e.len() - i,
    {
        let ghost rest = e@.skip(i as int);
        let c = e[i];
        assert(rest[0] == c);
        if c == '\\' {
            if i + 1 >= e.len() {
                return None;
            }
            let d = e[i + 1];
            assert(rest[1] == d);
            let short: Option<char> = if d == '"' {
                Some('"')
            } else if d == '\\' {
                Some('\\')
            } else if d == 'b' {
                Some('\x08')
            } else if d == 'f' {
                Some('\x0c')
            } else if d == 'n' {
                Some('\n')
            } else if d == 'r' {
                Some('\r')
            } else if d == 't' {
                Some('\t')
            } else {
                None
            };
            assert(short == unshort(d));
            match short {
                Some(x) => {
                    assert(rest.skip(2) == e@.skip(i + 2));
                    let ghost old_out = out@;
                    push_char(&mut out, x);
                    assert(out@ == old_out + seq![x]);
                    assert(seq![x] + rest.skip(2) == rest.skip(2).insert(0, x));
                    i = i + 2;
                    proof {
                        match unescape(rest.skip(2)) {
                            Some(t) => {
                                assert(old_out + (seq![x] + t) == out@ + t);
                            },
                            None => {},
                        }
                    }
                },
                None => {
                    if e.len() - i < 6 {
                        proof {
                            assert(unicode_escape(rest) is None);
                        }
                        return None;
                    }
                    let h1 = e[i + 2];
                    let h2 = e[i + 3];
                    let h3 = e[i + 4];
                    let h4 = e[i + 5];
                    assert(rest[2] == h1 && rest[3] == h2 && rest[4] == h3 && rest[5] == h4);
                    if !(d == 'u' && h1 == '0' && h2 == '0' && (h3 == '0' || h3 == '1')
                        && is_hex_char(h4)) {
                        proof {
                            if is_hex_lower(h3) && hex_value(h3) <= 1 {
                                assert(h3 == '0' || h3 == '1');
                            }
                        }
                        return None;
                    }
                    let v: u32 = hex_val(h3) * 16 + hex_val(h4);
                    if v == 8 || v == 9 || v == 10 || v == 12 || v == 13 {
                        proof {
                            vstd::utf8::char_u32_cast((v as u32) as char, v);
                        }
                        return None;
                    }
                    let ch = (v as u8) as char;
                    proof {
                        assert(ch as u32 == v);
                        vstd::utf8::char_u32_cast(ch, v);
                        assert(unicode_escape(rest) == Some(v as nat));
                        assert(rest.skip(6) == e@.skip(i + 6));
                    }
                    let ghost old_out = out@;
                    push_char(&mut out, ch);
                    i = i + 6;
                    proof {
                        match unescape(rest.skip(6)) {
                            Some(t) => {
                                assert(old_out + (seq![ch] + t) == out@ + t);
                            },
                            None => {},
                        }
                    }
                },
            }
        } else if c == '"' || (c as u32) < 0x20 {
            return None;
        } else {
            assert(rest.skip(1) == e@.skip(i + 1));
            let ghost old_out = out@;
            push_char(&mut out, c);
            i = i + 1;
            proof {
                match unescape(rest.skip(1)) {
                    Some(t) => {
                        assert(old_out + (seq![c] + t) == out@ + t);
                    },
                    None => {},
                }
            }
        }
    }
    proof {
        assert(e@.skip(i as int) == Seq::<char>::empty());
        assert(out@ + Seq::<char>::empty() == out@);
    }
    Some(out)
}

fn is_hex_char(c: char) -> (b: bool)
    ensures
        b == is_hex_lower(c),
{
    ('0' <= c && c <= '9') || ('a' <= c && c <= 'f')
}

} // verus!
