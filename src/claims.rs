//! The claims document carried inside a token, and its text form:
//! `{"pid":"<subject>","login":"<login>","exp":<seconds>}`.
use vstd::prelude::*;

verus! {

/// What a token asserts: the user's id as text, the login, and the absolute
/// expiry in Unix seconds.
pub struct Claims {
    pub pid: String,
    pub login: String,
    pub exp: u64,
}

pub struct ClaimsView {
    pub pid: Seq<char>,
    pub login: Seq<char>,
    pub exp: u64,
}

impl View for Claims {
    type V = ClaimsView;

    open spec fn view(&self) -> ClaimsView {
        ClaimsView { pid: self.pid@, login: self.login@, exp: self.exp }
    }
}

pub open spec fn hex_digits() -> Seq<char> {
    seq!['0', '1', '2', '3', '4', '5', '6', '7', '8', '9', 'a', 'b', 'c', 'd', 'e', 'f']
}

pub open spec fn is_digit(c: char) -> bool {
    '0' <= c && c <= '9'
}

pub open spec fn digit_value(c: char) -> nat {
    (c as u32 - '0' as u32) as nat
}

/// Value of a lowercase hex digit, or 16 for any other character.
pub open spec fn hex_value(c: char) -> nat {
    if is_digit(c) {
        digit_value(c)
    } else if 'a' <= c && c <= 'f' {
        (c as u32 - 'a' as u32 + 10) as nat
    } else {
        16
    }
}

/// How one character of a string is written inside a JSON string literal.
pub open spec fn escape_char(c: char) -> Seq<char> {
    if c == '"' {
        seq!['\\', '"']
    } else if c == '\\' {
        seq!['\\', '\\']
    } else if (c as u32) < 0x20 {
        seq!['\\', 'u', '0', '0', hex_digits()[((c as u32) / 16) as int], hex_digits()[((c as u32) % 16) as int]]
    } else {
        seq![c]
    }
}

/// The body of a JSON string literal holding `s` (without the quotes).
pub open spec fn escape(s: Seq<char>) -> Seq<char>
    decreases s.len(),
{
    if s.len() == 0 {
        seq![]
    } else {
        escape_char(s[0]) + escape(s.drop_first())
    }
}

/// Decimal digits of `n`, most significant first, without leading zeros.
pub open spec fn decimal(n: nat) -> Seq<char>
    decreases n,
{
    if n < 10 {
        seq![hex_digits()[n as int]]
    } else {
        decimal(n / 10).push(hex_digits()[(n % 10) as int])
    }
}

pub open spec fn pid_open() -> Seq<char> {
    seq!['{', '"', 'p', 'i', 'd', '"', ':', '"']
}

pub open spec fn login_sep() -> Seq<char> {
    seq!['"', ',', '"', 'l', 'o', 'g', 'i', 'n', '"', ':', '"']
}

pub open spec fn exp_sep() -> Seq<char> {
    seq!['"', ',', '"', 'e', 'x', 'p', '"', ':']
}

/// The text of a claims document.
pub open spec fn claims_text(c: ClaimsView) -> Seq<char> {
    pid_open() + escape(c.pid) + login_sep() + escape(c.login) + exp_sep() + decimal(
        c.exp as nat,
    ) + seq!['}']
}

proof fn lemma_escape_append(a: Seq<char>, b: Seq<char>)
    ensures
        escape(a + b) == escape(a) + escape(b),
    decreases a.len(),
{
    if a.len() == 0 {
        assert(a + b =~= b);
    } else {
        assert((a + b).drop_first() =~= a.drop_first() + b);
        lemma_escape_append(a.drop_first(), b);
        assert(escape(a) + escape(b) =~= escape_char(a[0]) + (escape(a.drop_first()) + escape(b)));
    }
}

fn hex_digit(d: u32) -> (r: char)
    requires
        d < 16,
    ensures
        r == hex_digits()[d as int],
{
    let digits = vec!['0', '1', '2', '3', '4', '5', '6', '7', '8', '9', 'a', 'b', 'c', 'd', 'e', 'f'];
    digits[d as usize]
}

fn push_escaped(out: &mut Vec<char>, c: char)
    ensures
        final(out)@ == old(out)@ + escape_char(c),
{
    if c == '"' || c == '\\' {
        out.push('\\');
        out.push(c);
    } else if (c as u32) < 0x20 {
        out.push('\\');
        out.push('u');
        out.push('0');
        out.push('0');
        out.push(hex_digit((c as u32) / 16));
        out.push(hex_digit((c as u32) % 16));
    } else {
        out.push(c);
    }
    assert(final(out)@ =~= old(out)@ + escape_char(c));
}

fn push_escaped_str(out: &mut Vec<char>, s: &Vec<char>)
    ensures
        final(out)@ == old(out)@ + escape(s@),
{
    let mut i: usize = 0;
    proof {
        assert(s@.take(0) =~= seq![]);
        assert(out@ =~= old(out)@ + escape(s@.take(0)));
    }
    while i < s.len()
        invariant
            i <= s@.len(),
            out@ == old(out)@ + escape(s@.take(i as int)),
        decreases s@.len() - i,
    {
        let ghost before = out@;
        push_escaped(out, s[i]);
        proof {
            assert(s@.take(i + 1) =~= s@.take(i as int) + seq![s@[i as int]]);
            lemma_escape_append(s@.take(i as int), seq![s@[i as int]]);
            assert(escape(seq![s@[i as int]]) =~= escape_char(s@[i as int])) by {
                let one = seq![s@[i as int]];
                assert(one.drop_first() =~= Seq::<char>::empty());
                assert(escape(one.drop_first()) =~= Seq::<char>::empty());
            }
            assert(out@ =~= old(out)@ + escape(s@.take(i + 1)));
        }
        i = i + 1;
    }
    assert(s@.take(i as int) =~= s@);
}

pub(crate) fn push_decimal(out: &mut Vec<char>, n: u64)
    ensures
        final(out)@ == old(out)@ + decimal(n as nat),
    decreases n,
{
    if n >= 10 {
        push_decimal(out, n / 10);
    }
    out.push(hex_digit((n % 10) as u32));
    assert(final(out)@ =~= old(out)@ + decimal(n as nat));
}

fn push_all(out: &mut Vec<char>, s: &Vec<char>)
    ensures
        final(out)@ == old(out)@ + s@,
{
    let mut i: usize = 0;
    while i < s.len()
        invariant
            i <= s@.len(),
            out@ == old(out)@ + s@.take(i as int),
        decreases s@.len() - i,
    {
        out.push(s[i]);
        assert(s@.take(i + 1) =~= s@.take(i as int).push(s@[i as int]));
        i = i + 1;
    }
    assert(s@.take(i as int) =~= s@);
}


/// Reads the body of a JSON string literal written as `escape` writes it, up
/// to its closing quote: the characters it holds, and the index of that quote.
pub open spec fn unescape(t: Seq<char>) -> Option<(Seq<char>, int)>
    decreases t.len(),
{
    if t.len() == 0 {
        None
    } else if t[0] == '"' {
        Some((seq![], 0))
    } else if t[0] == '\\' {
        if t.len() >= 2 && (t[1] == '"' || t[1] == '\\') {
            match unescape(t.subrange(2, t.len() as int)) {
                Some((s, k)) => Some((seq![t[1]] + s, k + 2)),
                None => None,
            }
        } else if t.len() >= 6 && t[1] == 'u' && t[2] == '0' && t[3] == '0' && hex_value(t[4]) < 2
            && hex_value(t[5]) < 16 {
            match unescape(t.subrange(6, t.len() as int)) {
                Some((s, k)) => Some(
                    (seq![((hex_value(t[4]) * 16 + hex_value(t[5])) as u8) as char] + s, k + 6),
                ),
                None => None,
            }
        } else {
            None
        }
    } else if (t[0] as u32) < 0x20 {
        None
    } else {
        match unescape(t.drop_first()) {
            Some((s, k)) => Some((seq![t[0]] + s, k + 1)),
            None => None,
        }
    }
}

/// Number of decimal digits at the start of `t`.
pub open spec fn digit_run(t: Seq<char>) -> nat
    decreases t.len(),
{
    if t.len() > 0 && is_digit(t[0]) {
        1 + digit_run(t.drop_first())
    } else {
        0
    }
}

/// The number that a sequence of decimal digits writes.
pub open spec fn digits_value(ds: Seq<char>) -> nat
    decreases ds.len(),
{
    if ds.len() == 0 {
        0
    } else {
        digits_value(ds.drop_last()) * 10 + digit_value(ds.last())
    }
}

pub open spec fn starts_with_at(t: Seq<char>, i: int, lit: Seq<char>) -> bool {
    0 <= i && i + lit.len() <= t.len() && t.subrange(i, i + lit.len()) == lit
}

/// Reads a claims document written as `claims_text` writes it.
pub open spec fn parse_claims_text(t: Seq<char>) -> Option<ClaimsView> {
    let n = t.len() as int;
    let i0 = pid_open().len() as int;
    if !starts_with_at(t, 0, pid_open()) {
        None
    } else {
        match unescape(t.subrange(i0, n)) {
            None => None,
            Some((pid, k1)) => {
                let i1 = i0 + k1;
                let i2 = i1 + login_sep().len();
                if !starts_with_at(t, i1, login_sep()) {
                    None
                } else {
                    match unescape(t.subrange(i2, n)) {
                        None => None,
                        Some((login, k2)) => {
                            let i3 = i2 + k2;
                            let i4 = i3 + exp_sep().len();
                            let j = i4 + digit_run(t.subrange(i4, n));
                            if starts_with_at(t, i3, exp_sep()) && j > i4 && digits_value(
                                t.subrange(i4, j),
                            ) <= u64::MAX && j + 1 == n && t[j] == '}' {
                                Some(
                                    ClaimsView {
                                        pid,
                                        login,
                                        exp: digits_value(t.subrange(i4, j)) as u64,
                                    },
                                )
                            } else {
                                None
                            }
                        },
                    }
                }
            },
        }
    }
}

proof fn lemma_control_char(c: char, v: u32)
    requires
        c as u32 == v,
        v < 0x20,
    ensures
        (v as u8) as char == c,
{
    assert(((v as u8) as char) as u32 == v);
}

proof fn lemma_unescape_escape(s: Seq<char>, rest: Seq<char>)
    ensures
        unescape(escape(s) + seq!['"'] + rest) == Some((s, escape(s).len() as int)),
    decreases s.len(),
{
    let t = escape(s) + seq!['"'] + rest;
    if s.len() == 0 {
        assert(t[0] == '"');
        assert(s =~= seq![]);
    } else {
        let c = s[0];
        let tail = escape(s.drop_first()) + seq!['"'] + rest;
        lemma_unescape_escape(s.drop_first(), rest);
        let e = escape_char(c);
        assert(t =~= e + tail);
        assert(t.subrange(e.len() as int, t.len() as int) =~= tail);
        if c == '"' || c == '\\' {
        } else if (c as u32) < 0x20 {
            let v = c as u32;
            assert(hex_value(hex_digits()[(v / 16) as int]) == v / 16) by {
                assert(v / 16 < 2);
            }
            assert(hex_value(hex_digits()[(v % 16) as int]) == v % 16) by {
                assert(v % 16 < 16);
            }
            assert(v / 16 * 16 + v % 16 == v);
            lemma_control_char(c, v);
        } else {
            assert(t.drop_first() =~= tail);
        }
        assert(seq![c] + s.drop_first() =~= s);
    }
}

pub(crate) proof fn lemma_decimal_digits(n: nat)
    ensures
        decimal(n).len() > 0,
        forall|i: int| 0 <= i < decimal(n).len() ==> is_digit(#[trigger] decimal(n)[i]),
        digits_value(decimal(n)) == n,
    decreases n,
{
    if n < 10 {
        let d = decimal(n);
        assert(d.drop_last() =~= Seq::<char>::empty());
        assert(is_digit(d[0]) && digit_value(d[0]) == n) by {
            assert(n < 10);
        }
        assert(d.last() == d[0]);
        assert(digits_value(d.drop_last()) == 0);
    } else {
        lemma_decimal_digits(n / 10);
        let d = decimal(n);
        let m = (n % 10) as int;
        assert(d.drop_last() =~= decimal(n / 10));
        assert(is_digit(d.last()) && digit_value(d.last()) == m) by {
            assert(0 <= m < 10);
        }
        assert(forall|i: int| 0 <= i < d.len() - 1 ==> d[i] == decimal(n / 10)[i]);
        assert(digits_value(d) == (n / 10) * 10 + m);
        assert((n / 10) * 10 + m == n);
        assert(digits_value(d) == n);
    }
}

pub(crate) proof fn lemma_digit_run(ds: Seq<char>, rest: Seq<char>)
    requires
        forall|i: int| 0 <= i < ds.len() ==> is_digit(#[trigger] ds[i]),
        rest.len() == 0 || !is_digit(rest[0]),
    ensures
        digit_run(ds + rest) == ds.len(),
    decreases ds.len(),
{
    if ds.len() == 0 {
        assert(ds + rest =~= rest);
    } else {
        assert((ds + rest).drop_first() =~= ds.drop_first() + rest);
        lemma_digit_run(ds.drop_first(), rest);
    }
}

/// Reading back a written claims document gives the claims that were written.
#[verifier::rlimit(60)]
pub proof fn lemma_claims_round_trip(c: ClaimsView)
    ensures
        parse_claims_text(claims_text(c)) == Some(c),
{
    let t = claims_text(c);
    let n = t.len() as int;
    let ep = escape(c.pid);
    let el = escape(c.login);
    let d = decimal(c.exp as nat);
    let i0 = pid_open().len() as int;
    let i1 = i0 + ep.len();
    let i2 = i1 + login_sep().len();
    let i3 = i2 + el.len();
    let i4 = i3 + exp_sep().len();
    let j = i4 + d.len();
    assert(t.subrange(0, i0) =~= pid_open());
    let rest1 = login_sep().drop_first() + el + exp_sep() + d + seq!['}'];
    assert(t.subrange(i0, n) =~= ep + seq!['"'] + rest1);
    lemma_unescape_escape(c.pid, rest1);
    assert(t.subrange(i1, i2) =~= login_sep());
    let rest2 = exp_sep().drop_first() + d + seq!['}'];
    assert(t.subrange(i2, n) =~= el + seq!['"'] + rest2);
    lemma_unescape_escape(c.login, rest2);
    assert(t.subrange(i3, i4) =~= exp_sep());
    lemma_decimal_digits(c.exp as nat);
    assert(t.subrange(i4, n) =~= d + seq!['}']);
    lemma_digit_run(d, seq!['}']);
    assert(t.subrange(i4, j) =~= d);
}



spec fn shift(
    out: Seq<char>,
    d: int,
    x: Option<(Seq<char>, int)>,
) -> Option<(Seq<char>, int)> {
    match x {
        Some((s, k)) => Some((out + s, k + d)),
        None => None,
    }
}

fn hex_value_of(c: char) -> (r: u32)
    ensures
        r == hex_value(c),
{
    if '0' <= c && c <= '9' {
        c as u32 - '0' as u32
    } else if 'a' <= c && c <= 'f' {
        c as u32 - 'a' as u32 + 10
    } else {
        16
    }
}

/// Reads a string body starting at `start`; see `unescape`.
fn read_string_body(t: &Vec<char>, start: usize) -> (r: Option<(Vec<char>, usize)>)
    requires
        start <= t@.len(),
    ensures
        match unescape(t@.subrange(start as int, t@.len() as int)) {
            Some((s, k)) => r matches Some((o, e)) && o@ == s && e == start + k,
            None => r is None,
        },
{
    let n = t.len();
    let mut out: Vec<char> = Vec::new();
    let mut i: usize = start;
    while i < n
        invariant
            n == t@.len(),
            start <= i <= n,
            unescape(t@.subrange(start as int, n as int)) == shift(
                out@,
                i - start,
                unescape(t@.subrange(i as int, n as int)),
            ),
        decreases n - i,
    {
        let ghost u = t@.subrange(i as int, n as int);
        let c = t[i];
        if c == '"' {
            assert(unescape(u) == Some((Seq::<char>::empty(), 0int)));
            assert(out@ + Seq::<char>::empty() =~= out@);
            return Some((out, i));
        }
        let mut m: usize = 1;
        if c == '\\' {
            if i + 1 < n && (t[i + 1] == '"' || t[i + 1] == '\\') {
                out.push(t[i + 1]);
                m = 2;
            } else if n - i > 5 && t[i + 1] == 'u' && t[i + 2] == '0' && t[i + 3] == '0'
                && hex_value_of(t[i + 4]) < 2 && hex_value_of(t[i + 5]) < 16 {
                let v = hex_value_of(t[i + 4]) * 16 + hex_value_of(t[i + 5]);
                out.push((v as u8) as char);
                m = 6;
            } else {
                return None;
            }
        } else if (c as u32) < 0x20 {
            return None;
        } else {
            out.push(c);
        }
        proof {
            let piece = out@.subrange(out@.len() - 1, out@.len() as int);
            let old_out = out@.drop_last();
            assert(u.subrange(m as int, u.len() as int) =~= t@.subrange(i + m, n as int));
            if m == 1 {
                assert(u.drop_first() =~= t@.subrange(i + m, n as int));
            }
            let x = unescape(t@.subrange(i + m, n as int));
            assert(unescape(u) == shift(piece, m as int, x));
            match x {
                Some((s2, k2)) => {
                    assert(old_out + (piece + s2) =~= out@ + s2);
                },
                None => {},
            }
        }
        i = i + m;
    }
    assert(unescape(t@.subrange(n as int, n as int)) is None);
    None
}


proof fn lemma_digit_run_len(t: Seq<char>)
    ensures
        digit_run(t) <= t.len(),
    decreases t.len(),
{
    if t.len() > 0 {
        lemma_digit_run_len(t.drop_first());
    }
}

proof fn lemma_digits_value_prefix(ds: Seq<char>, k: int)
    requires
        0 <= k <= ds.len(),
    ensures
        digits_value(ds.take(k)) <= digits_value(ds),
    decreases ds.len(),
{
    if k < ds.len() {
        assert(ds.take(k) =~= ds.drop_last().take(k));
        lemma_digits_value_prefix(ds.drop_last(), k);
    } else {
        assert(ds.take(k) =~= ds);
    }
}

/// Reads the run of decimal digits that starts at `start`: its value and
/// where it ends, or `None` when the value does not fit in a `u64`.
pub(crate) fn read_digits(t: &Vec<char>, start: usize) -> (r: Option<(u64, usize)>)
    requires
        start <= t@.len(),
    ensures
        start + digit_run(t@.subrange(start as int, t@.len() as int)) <= t@.len(),
        ({
            let j = start + digit_run(t@.subrange(start as int, t@.len() as int));
            let v = digits_value(t@.subrange(start as int, j));
            if v <= u64::MAX {
                r == Some((v as u64, j as usize))
            } else {
                r is None
            }
        }),
{
    let n = t.len();
    let mut v: u64 = 0;
    let mut i: usize = start;
    proof {
        lemma_digit_run_len(t@.subrange(start as int, n as int));
    }
    assert(t@.subrange(start as int, start as int) =~= Seq::<char>::empty());
    while i < n && '0' <= t[i] && t[i] <= '9'
        invariant
            n == t@.len(),
            start <= i <= n,
            digit_run(t@.subrange(start as int, n as int)) == (i - start) + digit_run(
                t@.subrange(i as int, n as int),
            ),
            v == digits_value(t@.subrange(start as int, i as int)),
        decreases n - i,
    {
        let ghost u = t@.subrange(i as int, n as int);
        assert(u.drop_first() =~= t@.subrange(i + 1, n as int));
        assert(u[0] == t@[i as int]);
        assert(digit_run(u) >= 1);
        let d = (t[i] as u32 - '0' as u32) as u64;
        let ghost next = t@.subrange(start as int, i + 1);
        assert(next.drop_last() =~= t@.subrange(start as int, i as int));
        if v > (u64::MAX - d) / 10 {
            proof {
                let whole = t@.subrange(start as int, start + digit_run(t@.subrange(start as int, n as int)));
                assert(digits_value(next) > u64::MAX) by (nonlinear_arith)
                    requires
                        digits_value(next) == v * 10 + d,
                        v > (u64::MAX - d) / 10,
                        d <= 9,
                ;
                lemma_digit_run_len(u);
                assert(whole.take(i + 1 - start) =~= next);
                lemma_digits_value_prefix(whole, i + 1 - start);
            }
            return None;
        }
        v = v * 10 + d;
        i = i + 1;
    }
    proof {
        if i < n {
            assert(digit_run(t@.subrange(i as int, n as int)) == 0);
        } else {
            assert(digit_run(t@.subrange(i as int, n as int)) == 0);
        }
    }
    Some((v, i))
}

fn has_at(t: &Vec<char>, i: usize, lit: &Vec<char>) -> (r: bool)
    ensures
        r == starts_with_at(t@, i as int, lit@),
{
    if i > t.len() || lit.len() > t.len() - i {
        return false;
    }
    let mut k: usize = 0;
    while k < lit.len()
        invariant
            i + lit@.len() <= t@.len(),
            t@.len() <= usize::MAX,
            k <= lit@.len(),
            forall|x: int| 0 <= x < k ==> t@[i + x] == lit@[x],
        decreases lit@.len() - k,
    {
        if t[i + k] != lit[k] {
            assert(t@.subrange(i as int, i + lit@.len())[k as int] != lit@[k as int]);
            return false;
        }
        k = k + 1;
    }
    assert(t@.subrange(i as int, i + lit@.len()) =~= lit@);
    true
}


/// Relies on `str::chars`: the characters of the string, in order.
#[verifier::external_body]
pub(crate) fn chars_of(s: &str) -> (r: Vec<char>)
    ensures
        r@ == s@,
{
    s.chars().collect()
}

/// Relies on `String`'s `FromIterator<&char>`: the string of these characters.
#[verifier::external_body]
pub(crate) fn string_of(cs: &Vec<char>) -> (r: String)
    ensures
        r@ == cs@,
{
    cs.iter().collect()
}

/// Writes the claims document of `c`.
pub fn encode_claims(c: &Claims) -> (r: String)
    ensures
        r@ == claims_text(c@),
{
    let mut out: Vec<char> = Vec::new();
    push_all(&mut out, &vec!['{', '"', 'p', 'i', 'd', '"', ':', '"']);
    push_escaped_str(&mut out, &chars_of(c.pid.as_str()));
    push_all(&mut out, &vec!['"', ',', '"', 'l', 'o', 'g', 'i', 'n', '"', ':', '"']);
    push_escaped_str(&mut out, &chars_of(c.login.as_str()));
    push_all(&mut out, &vec!['"', ',', '"', 'e', 'x', 'p', '"', ':']);
    push_decimal(&mut out, c.exp);
    out.push('}');
    assert(out@ =~= claims_text(c@));
    string_of(&out)
}

/// Reads a claims document in the form that `encode_claims` writes (see
/// `parse_claims_text`); `None` for any other text.
pub fn parse_claims(text: &str) -> (r: Option<Claims>)
    ensures
        match parse_claims_text(text@) {
            Some(v) => r matches Some(c) && c@ == v,
            None => r is None,
        },
{
    let t = chars_of(text);
    let n = t.len();
    let open = vec!['{', '"', 'p', 'i', 'd', '"', ':', '"'];
    let sep1 = vec!['"', ',', '"', 'l', 'o', 'g', 'i', 'n', '"', ':', '"'];
    let sep2 = vec!['"', ',', '"', 'e', 'x', 'p', '"', ':'];
    assert(open@ == pid_open() && sep1@ == login_sep() && sep2@ == exp_sep());
    if !has_at(&t, 0, &open) {
        return None;
    }
    let (pid, i1) = match read_string_body(&t, 8) {
        Some(x) => x,
        None => return None,
    };
    if !has_at(&t, i1, &sep1) {
        return None;
    }
    let (login, i3) = match read_string_body(&t, i1 + 11) {
        Some(x) => x,
        None => return None,
    };
    if !has_at(&t, i3, &sep2) {
        return None;
    }
    let i4 = i3 + 8;
    let (exp, j) = match read_digits(&t, i4) {
        Some(x) => x,
        None => return None,
    };
    if j == i4 || j >= n || j + 1 != n || t[j] != '}' {
        return None;
    }
    Some(Claims { pid: string_of(&pid), login: string_of(&login), exp })
}

} // verus!
