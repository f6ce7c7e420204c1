use vstd::prelude::*;
use vstd::string::StringExecFns;
use crate::decimal::{decimal, decimal_i64, is_digit, parse_i64, push_decimal};
use crate::json_string::{escape, push_escaped, unescape, unescape_chars};
use crate::text::{chars_of, has_at};

verus! {

/// What a token is for: calling protected routes, or minting a new pair.
#[derive(Clone, Copy, Debug, PartialEq, Eq, Structural)]
pub enum TokenKind {
    Access,
    Refresh,
}

/// The signed claim set of a token.
#[derive(Debug)]
pub struct Claims {
    /// Subject identifier (the owner's CPF/CNPJ).
    pub sub: String,
    /// Expiry, in seconds since the Unix epoch.
    pub exp: i64,
    pub kind: TokenKind,
}

/// The mathematical value of a claim set.
pub struct ClaimsView {
    pub sub: Seq<char>,
    pub exp: i64,
    pub kind: TokenKind,
}

impl View for Claims {
    type V = ClaimsView;

    open spec fn view(&self) -> ClaimsView {
        ClaimsView { sub: self.sub@, exp: self.exp, kind: self.kind }
    }
}

/// The wire name of a kind.
pub open spec fn kind_name(k: TokenKind) -> Seq<char> {
    match k {
        TokenKind::Access => seq!['a', 'c', 'c', 'e', 's', 's'],
        TokenKind::Refresh => seq!['r', 'e', 'f', 'r', 'e', 's', 'h'],
    }
}

/// `{"sub":"`
pub open spec fn claims_open() -> Seq<char> {
    seq!['{', '"', 's', 'u', 'b', '"', ':', '"']
}

/// `","exp":`
pub open spec fn exp_label() -> Seq<char> {
    seq!['"', ',', '"', 'e', 'x', 'p', '"', ':']
}

/// `,"kind":"<name>"}`
pub open spec fn kind_tail(k: TokenKind) -> Seq<char> {
    seq![',', '"', 'k', 'i', 'n', 'd', '"', ':', '"'] + kind_name(k) + seq!['"', '}']
}

/// The JSON text of a claim set: `{"sub":"…","exp":…,"kind":"…"}`.
pub open spec fn claims_text(c: ClaimsView) -> Seq<char> {
    claims_open() + escape(c.sub) + exp_label() + decimal(c.exp as int) + kind_tail(c.kind)
}

pub open spec fn is_num_char(c: char) -> bool {
    is_digit(c) || c == '-'
}

/// Where the run of digits and minus signs at the end of `m` starts.
pub open spec fn num_start(m: Seq<char>) -> int
    decreases m.len(),
{
    if m.len() == 0 {
        0
    } else if is_num_char(m.last()) {
        num_start(m.drop_last())
    } else {
        m.len() as int
    }
}

pub open spec fn ends_with(t: Seq<char>, s: Seq<char>) -> bool {
    t.len() >= s.len() && t.skip(t.len() - s.len()) == s
}

pub open spec fn tail_kind(t: Seq<char>) -> Option<TokenKind> {
    if ends_with(t, kind_tail(TokenKind::Access)) {
        Some(TokenKind::Access)
    } else if ends_with(t, kind_tail(TokenKind::Refresh)) {
        Some(TokenKind::Refresh)
    } else {
        None
    }
}

/// Reads `<escaped sub>","exp":<decimal>`.
pub open spec fn read_middle(m: Seq<char>, k: TokenKind) -> Option<ClaimsView> {
    let j = num_start(m);
    if j < 8 || m.subrange(j - 8, j) != exp_label() {
        None
    } else {
        match (unescape(m.take(j - 8)), decimal_i64(m.skip(j))) {
            (Some(s), Some(e)) => Some(ClaimsView { sub: s, exp: e, kind: k }),
            _ => None,
        }
    }
}

/// The claim set that a JSON text holds, when it is in the form that
/// `claims_text` writes.
pub open spec fn read_claims(t: Seq<char>) -> Option<ClaimsView> {
    match tail_kind(t) {
        None => None,
        Some(k) => if t.len() < 8 + kind_tail(k).len() || t.take(8) != claims_open() {
            None
        } else {
            read_middle(t.subrange(8, t.len() - kind_tail(k).len()), k)
        },
    }
}

proof fn lemma_num_start_after(a: Seq<char>, b: Seq<char>)
    requires
        a.len() > 0,
        !is_num_char(a.last()),
        forall|i: int| 0 <= i < b.len() ==> is_num_char(#[trigger] b[i]),
    ensures
        num_start(a + b) == a.len(),
    decreases b.len(),
{
    if b.len() == 0 {
        assert(a + b == a);
    } else {
        assert((a + b).drop_last() == a + b.drop_last());
        assert((a + b).last() == b[b.len() - 1]);
        lemma_num_start_after(a, b.drop_last());
    }
}

proof fn lemma_decimal_num_chars(x: int)
    ensures
        forall|i: int| 0 <= i < decimal(x).len() ==> is_num_char(#[trigger] decimal(x)[i]),
{
    if x < 0 {
        crate::decimal::lemma_digits_of((-x) as nat);
        let d = decimal(x);
        assert forall|i: int| 0 <= i < d.len() implies is_num_char(#[trigger] d[i]) by {
            if i > 0 {
                assert(d[i] == crate::decimal::digits_of((-x) as nat)[i - 1]);
            }
        }
    } else {
        crate::decimal::lemma_digits_of(x as nat);
    }
}

proof fn lemma_tail_kind(pre: Seq<char>, k: TokenKind)
    ensures
        tail_kind(pre + kind_tail(k)) == Some(k),
{
    let t = pre + kind_tail(k);
    let tail = kind_tail(k);
    assert(t.skip(t.len() - tail.len()) == tail);
    if k == TokenKind::Refresh {
        let a = kind_tail(TokenKind::Access);
        assert(tail =~= seq![',', '"', 'k', 'i', 'n', 'd', '"', ':', '"', 'r', 'e', 'f', 'r', 'e', 's', 'h', '"', '}']);
        assert(a =~= seq![',', '"', 'k', 'i', 'n', 'd', '"', ':', '"', 'a', 'c', 'c', 'e', 's', 's', '"', '}']);
        assert(t[t.len() - 2] == tail[tail.len() - 2]);
        assert(t.skip(t.len() - a.len())[a.len() - 2] == t[t.len() - 2]);
    }
}

proof fn lemma_middle_round_trip(c: ClaimsView)
    ensures
        read_middle(escape(c.sub) + exp_label() + decimal(c.exp as int), c.kind) == Some(c),
{
    let e = escape(c.sub);
    let d = decimal(c.exp as int);
    let m = e + exp_label() + d;
    lemma_decimal_num_chars(c.exp as int);
    assert((e + exp_label()).last() == ':');
    lemma_num_start_after(e + exp_label(), d);
    let j = num_start(m);
    assert(j == e.len() + 8);
    assert(m.subrange(j - 8, j) == exp_label());
    assert(m.take(j - 8) == e);
    assert(m.skip(j) == d);
    crate::json_string::lemma_escape_round_trip(c.sub);
    crate::decimal::lemma_decimal_round_trip(c.exp);
}

/// The text written for a claim set reads back as that claim set.
pub proof fn lemma_claims_round_trip(c: ClaimsView)
    ensures
        read_claims(claims_text(c)) == Some(c),
{
    let t = claims_text(c);
    let tail = kind_tail(c.kind);
    let m = escape(c.sub) + exp_label() + decimal(c.exp as int);
    assert(t == (claims_open() + m) + tail);
    lemma_tail_kind(claims_open() + m, c.kind);
    assert(t.take(8) == claims_open());
    assert(t.subrange(8, t.len() - tail.len()) == m);
    lemma_middle_round_trip(c);
}

proof fn lemma_num_start_bounds(m: Seq<char>)
    ensures
        0 <= num_start(m) <= m.len(),
    decreases m.len(),
{
    if m.len() > 0 && is_num_char(m.last()) {
        lemma_num_start_bounds(m.drop_last());
    }
}

/// A text that `read_claims` accepts is exactly the text written for the
/// claim set it yields: nothing but the canonical form gets through.
pub proof fn lemma_claims_canonical(t: Seq<char>)
    requires
        read_claims(t) is Some,
    ensures
        claims_text(read_claims(t)->0) == t,
{
    let c = read_claims(t)->0;
    let k = c.kind;
    let tail = kind_tail(k);
    let m = t.subrange(8, t.len() - tail.len());
    let j = num_start(m);
    lemma_num_start_bounds(m);
    crate::json_string::lemma_unescape_canonical(m.take(j - 8));
    crate::decimal::lemma_decimal_canonical(m.skip(j));
    assert(m =~= m.take(j - 8) + m.subrange(j - 8, j) + m.skip(j));
    assert(t.skip(t.len() - tail.len()) == tail);
    assert(t =~= t.take(8) + m + t.skip(t.len() - tail.len()));
}

/// Whether `t` ends with `lit`.
fn ends_with_lit(t: &[char], lit: &str) -> (b: bool)
    ensures
        b == ends_with(t@, lit@),
{
    let n = lit.unicode_len();
    if n > t.len() {
        return false;
    }
    let b = has_at(t, t.len() - n, lit);
    assert(t@.subrange(t.len() - n, t.len() as int) == t@.skip(t.len() - n));
    b
}

/// Writes the JSON text of a claim set.
pub fn write_claims(c: &Claims) -> (r: String)
    ensures
        r@ == claims_text(c@),
{
    proof {
        reveal_strlit("{\"sub\":\"");
        reveal_strlit("\",\"exp\":");
        reveal_strlit(",\"kind\":\"access\"}");
        reveal_strlit(",\"kind\":\"refresh\"}");
    }
    let mut out = "{\"sub\":\"".to_string();
    let sub = chars_of(c.sub.as_str());
    push_escaped(&mut out, sub.as_slice());
    out.append("\",\"exp\":");
    push_decimal(&mut out, c.exp);
    match c.kind {
        TokenKind::Access => out.append(",\"kind\":\"access\"}"),
        TokenKind::Refresh => out.append(",\"kind\":\"refresh\"}"),
    }
    assert(out@ =~= claims_text(c@));
    out
}

/// Reads a claim set from JSON text in the form that `write_claims` writes;
/// anything else is refused.
pub fn read_claims_text(text: &str) -> (r: Option<Claims>)
    ensures
        match r {
            Some(c) => read_claims(text@) == Some(c@),
            None => read_claims(text@) is None,
        },
{
    proof {
        reveal_strlit("{\"sub\":\"");
        reveal_strlit("\",\"exp\":");
        reveal_strlit(",\"kind\":\"access\"}");
        reveal_strlit(",\"kind\":\"refresh\"}");
    }
    let t = chars_of(text);
    let ghost ts = t@;
    let kind = if ends_with_lit(t.as_slice(), ",\"kind\":\"access\"}") {
        assert(",\"kind\":\"access\"}"@ =~= kind_tail(TokenKind::Access));
        TokenKind::Access
    } else if ends_with_lit(t.as_slice(), ",\"kind\":\"refresh\"}") {
        assert(",\"kind\":\"access\"}"@ =~= kind_tail(TokenKind::Access));
        assert(",\"kind\":\"refresh\"}"@ =~= kind_tail(TokenKind::Refresh));
        TokenKind::Refresh
    } else {
        assert(",\"kind\":\"access\"}"@ =~= kind_tail(TokenKind::Access));
        assert(",\"kind\":\"refresh\"}"@ =~= kind_tail(TokenKind::Refresh));
        return None;
    };
    assert(tail_kind(ts) == Some(kind));
    let tail_len: usize = match kind {
        TokenKind::Access => 17,
        TokenKind::Refresh => 18,
    };
    assert(tail_len == kind_tail(kind).len());
    if t.len() < 8 + tail_len {
        return None;
    }
    if !has_at(t.as_slice(), 0, "{\"sub\":\"") {
        assert("{\"sub\":\""@ =~= claims_open());
        assert(ts.subrange(0, 8) == ts.take(8));
        return None;
    }
    assert("{\"sub\":\""@ =~= claims_open());
    assert(ts.subrange(0, 8) == ts.take(8));
    read_middle_at(t.as_slice(), 8, t.len() - tail_len, kind)
}

/// Where the run of digits and minus signs that ends at `hi` starts, not
/// going below `lo`.
fn num_run_start(t: &[char], lo: usize, hi: usize) -> (j: usize)
    requires
        lo <= hi <= t@.len(),
    ensures
        lo <= j <= hi,
        j - lo == num_start(t@.subrange(lo as int, hi as int)),
{
    let ghost m = t@.subrange(lo as int, hi as int);
    let mut j: usize = hi;
    assert(m.take(j - lo) == m);
    while j > lo && (t[j - 1] == '-' || ('0' <= t[j - 1] && t[j - 1] <= '9'))
        invariant
            lo <= j <= hi,
            hi <= t@.len(),
            m == t@.subrange(lo as int, hi as int),
            num_start(m) == num_start(m.take(j - lo)),
        decreases j,
    {
        assert(m.take(j - lo).drop_last() == m.take(j - 1 - lo));
        assert(m.take(j - lo).last() == t@[j - 1]);
        j = j - 1;
    }
    proof {
        if j > lo {
            assert(m.take(j - lo).last() == t@[j - 1]);
        } else {
            assert(m.take(0) == Seq::<char>::empty());
        }
    }
    j
}

/// Reads `<escaped sub>","exp":<decimal>` from `t[lo..hi]`.
fn read_middle_at(t: &[char], lo: usize, hi: usize, kind: TokenKind) -> (r: Option<Claims>)
    requires
        lo <= hi <= t@.len(),
    ensures
        match r {
            Some(c) => read_middle(t@.subrange(lo as int, hi as int), kind) == Some(c@),
            None => read_middle(t@.subrange(lo as int, hi as int), kind) is None,
        },
{
    proof {
        reveal_strlit("\",\"exp\":");
    }
    let ghost m = t@.subrange(lo as int, hi as int);
    let j = num_run_start(t, lo, hi);
    if j - lo < 8 {
        return None;
    }
    assert("\",\"exp\":"@ =~= exp_label());
    assert(m.subrange(j - lo - 8, j - lo) == t@.subrange(j - 8, j as int));
    if !has_at(t, j - 8, "\",\"exp\":") {
        return None;
    }
    let esc = vstd::slice::slice_subrange(t, lo, j - 8);
    let num = vstd::slice::slice_subrange(t, j, hi);
    assert(esc@ == m.take(j - lo - 8));
    assert(num@ == m.skip(j - lo));
    let sub = match unescape_chars(esc) {
        Some(s) => s,
        None => {
            return None;
        },
    };
    let exp = match parse_i64(num) {
        Some(x) => x,
        None => {
            return None;
        },
    };
    Some(Claims { sub, exp, kind })
}

} // verus!
