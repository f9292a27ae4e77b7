//! Turning raw bytes into text.
use vstd::prelude::*;
use vstd::string::StringSliceAdditionalSpecFns;
use vstd::utf8::{decode_utf8, valid_utf8};

verus! {

/// The characters that a lossy UTF-8 decoding gives for `b`.
pub uninterp spec fn lossy_text(b: Seq<u8>) -> Seq<char>;

/// Relies on `String::from_utf8_lossy`: valid UTF-8 is decoded as it stands,
/// and the result depends on the bytes alone.
#[verifier::external_body]
pub(crate) fn text_from_bytes(b: &[u8]) -> (r: String)
    ensures
        r@ == lossy_text(b@),
        valid_utf8(b@) ==> r@ == decode_utf8(b@),
{
    String::from_utf8_lossy(b).into_owned()
}

} // verus!

verus! {

/// ASCII whitespace: space, tab, line feed, vertical tab, form feed,
/// carriage return.
pub open spec fn is_space(c: u8) -> bool {
    c == 32 || c == 9 || c == 10 || c == 11 || c == 12 || c == 13
}

pub fn space(c: u8) -> (r: bool)
    ensures
        r == is_space(c),
{
    c == 32 || c == 9 || c == 10 || c == 11 || c == 12 || c == 13
}

/// The length of the run of non-space bytes that `s` starts with.
pub open spec fn word_len(s: Seq<u8>) -> nat
    decreases s.len(),
{
    if s.len() > 0 && !is_space(s[0]) {
        1 + word_len(s.drop_first())
    } else {
        0
    }
}

/// The whitespace-separated tokens of `s`, in order.
pub open spec fn split_ws(s: Seq<u8>) -> Seq<Seq<u8>>
    decreases s.len()
    via split_ws_decreases

{
    if s.len() == 0 {
        seq![]
    } else if is_space(s[0]) {
        split_ws(s.drop_first())
    } else {
        seq![s.take(word_len(s) as int)] + split_ws(s.skip(word_len(s) as int))
    }
}

#[via_fn]
proof fn split_ws_decreases(s: Seq<u8>) {
    lemma_word_len_bound(s);
}

proof fn lemma_word_len_bound(s: Seq<u8>)
    ensures
        word_len(s) <= s.len(),
        word_len(s) > 0 <==> (s.len() > 0 && !is_space(s[0])),
    decreases s.len(),
{
    if s.len() > 0 && !is_space(s[0]) {
        lemma_word_len_bound(s.drop_first());
    }
}

/// Splits `s` into its whitespace-separated tokens.
pub fn split_whitespace(s: &[u8]) -> (r: Vec<Vec<u8>>)
    ensures
        r.deep_view() == split_ws(s@),
{
    let len = s.len();
    let mut r: Vec<Vec<u8>> = Vec::new();
    let mut i: usize = 0;
    assert(s@.skip(0) =~= s@);
    assert(r.deep_view() + split_ws(s@) =~= split_ws(s@));
    while i < len
        invariant
            len == s@.len(),
            i <= len,
            r.deep_view() + split_ws(s@.skip(i as int)) == split_ws(s@),
        decreases len - i,
    {
        assert(s@.skip(i as int).drop_first() =~= s@.skip(i + 1));
        if space(s[i]) {
            i = i + 1;
        } else {
            let mut j: usize = i;
            while j < len && !space(s[j])
                invariant
                    i <= j <= len,
                    len == s@.len(),
                    word_len(s@.skip(i as int)) == (j - i) + word_len(s@.skip(j as int)),
                    s@.skip(i as int).take(j - i) == s@.subrange(i as int, j as int),
                decreases len - j,
            {
                assert(s@.skip(j as int).drop_first() =~= s@.skip(j + 1));
                assert(s@.skip(i as int).take(j + 1 - i) =~= s@.subrange(i as int, j + 1));
                j = j + 1;
            }
            assert(word_len(s@.skip(j as int)) == 0);
            let ghost t = s@.skip(i as int);
            assert(t.skip(word_len(t) as int) =~= s@.skip(j as int));
            proof {
                lemma_word_len_bound(t);
            }
            let w = crate::wire::copy_range(s, i, j);
            assert(w.deep_view() =~= w@);
            let ghost before = r.deep_view();
            r.push(w);
            assert(r.deep_view() =~= before.push(w@));
            assert(before.push(w@) + split_ws(s@.skip(j as int)) =~= before + (seq![w@]
                + split_ws(s@.skip(j as int))));
            i = j;
        }
    }
    assert(s@.skip(len as int) =~= Seq::<u8>::empty());
    assert(r.deep_view() + seq![] =~= r.deep_view());
    r
}

} // verus!

verus! {

/// The number of space bytes that `s` starts with.
pub open spec fn lead_spaces(s: Seq<u8>) -> nat
    decreases s.len(),
{
    if s.len() > 0 && is_space(s[0]) {
        1 + lead_spaces(s.drop_first())
    } else {
        0
    }
}

/// The number of space bytes that `s` ends with.
pub open spec fn trail_spaces(s: Seq<u8>) -> nat
    decreases s.len(),
{
    if s.len() > 0 && is_space(s.last()) {
        1 + trail_spaces(s.drop_last())
    } else {
        0
    }
}

/// `s` without the spaces at either end.
pub open spec fn trim(s: Seq<u8>) -> Seq<u8> {
    let t = s.skip(lead_spaces(s) as int);
    t.take(t.len() - trail_spaces(t))
}

/// The bounds of `trim(s@)` within `s`.
pub fn trim_span(s: &[u8]) -> (r: (usize, usize))
    ensures
        r.0 <= r.1 <= s@.len(),
        s@.subrange(r.0 as int, r.1 as int) == trim(s@),
{
    let len = s.len();
    let mut a: usize = 0;
    assert(s@.skip(0) =~= s@);
    while a < len && space(s[a])
        invariant
            a <= len == s@.len(),
            lead_spaces(s@) == a + lead_spaces(s@.skip(a as int)),
        decreases len - a,
    {
        assert(s@.skip(a as int).drop_first() =~= s@.skip(a + 1));
        a = a + 1;
    }
    assert(lead_spaces(s@) == a);
    let ghost t = s@.skip(a as int);
    let mut b: usize = len;
    assert(t.take(b - a) =~= t);
    while b > a && space(s[b - 1])
        invariant
            a <= b <= len == s@.len(),
            t == s@.skip(a as int),
            trail_spaces(t) == (len - b) + trail_spaces(t.take(b - a)),
        decreases b,
    {
        assert(t.take(b - a).drop_last() =~= t.take(b - 1 - a));
        b = b - 1;
    }
    assert(trail_spaces(t.take(b - a)) == 0);
    assert(s@.subrange(a as int, b as int) =~= t.take(t.len() - trail_spaces(t)));
    (a, b)
}

pub open spec fn is_digit(c: u8) -> bool {
    48 <= c <= 57
}

/// Every byte of `s` is a decimal digit.
pub open spec fn all_digits(s: Seq<u8>) -> bool {
    forall|i: int| 0 <= i < s.len() ==> is_digit(#[trigger] s[i])
}

/// The value of the decimal digits `s`.
pub open spec fn digits_value(s: Seq<u8>) -> int
    decreases s.len(),
{
    if s.len() == 0 {
        0
    } else {
        10 * digits_value(s.drop_last()) + (s.last() - 48)
    }
}

/// The value of an unsigned integer token: an optional `+`, then one or
/// more digits.
pub open spec fn unsigned_of(tok: Seq<u8>) -> Option<int> {
    let body = if tok.len() > 0 && tok[0] == 43 {
        tok.drop_first()
    } else {
        tok
    };
    if body.len() > 0 && all_digits(body) {
        Some(digits_value(body))
    } else {
        None
    }
}

/// The value of a signed integer token: an optional `+` or `-`, then one or
/// more digits.
pub open spec fn signed_of(tok: Seq<u8>) -> Option<int> {
    if tok.len() > 0 && tok[0] == 45 {
        let body = tok.drop_first();
        if body.len() > 0 && all_digits(body) {
            Some(-digits_value(body))
        } else {
            None
        }
    } else {
        unsigned_of(tok)
    }
}

pub open spec fn saturate(v: int) -> int {
    if v < 0x1_0000_0000_0000_0000 {
        v
    } else {
        0x1_0000_0000_0000_0000
    }
}

proof fn lemma_digits_nonneg(s: Seq<u8>)
    requires
        all_digits(s),
    ensures
        digits_value(s) >= 0,
    decreases s.len(),
{
    if s.len() > 0 {
        assert(all_digits(s.drop_last())) by {
            assert forall|i: int| 0 <= i < s.len() - 1 implies is_digit(
                #[trigger] s.drop_last()[i],
            ) by {
                assert(s.drop_last()[i] == s[i]);
            }
        }
        lemma_digits_nonneg(s.drop_last());
    }
}

/// The value of the digits of `s` from `from` on, held at most at 2^64, or
/// `None` where that part is empty or holds a byte that is no digit.
fn digits_from(s: &[u8], from: usize) -> (r: Option<u128>)
    requires
        from <= s@.len(),
    ensures
        match r {
            Some(v) => s@.len() > from && all_digits(s@.skip(from as int)) && v == saturate(
                digits_value(s@.skip(from as int)),
            ),
            None => !(s@.len() > from && all_digits(s@.skip(from as int))),
        },
{
    let len = s.len();
    if from == len {
        return None;
    }
    let mut acc: u128 = 0;
    let mut i: usize = from;
    while i < len
        invariant
            from <= i <= len == s@.len(),
            all_digits(s@.subrange(from as int, i as int)),
            acc == saturate(digits_value(s@.subrange(from as int, i as int))),
        decreases len - i,
    {
        let c = s[i];
        if c < 48 || c > 57 {
            assert(s@.skip(from as int)[i - from] == c);
            return None;
        }
        let ghost p = s@.subrange(from as int, i as int);
        let ghost q = s@.subrange(from as int, i + 1);
        assert(q.drop_last() =~= p);
        assert(all_digits(q)) by {
            assert forall|k: int| 0 <= k < q.len() implies is_digit(#[trigger] q[k]) by {
                if k < p.len() {
                    assert(q[k] == p[k]);
                }
            }
        }
        proof {
            lemma_digits_nonneg(p);
        }
        let d = (c - 48) as u128;
        let next = acc * 10 + d;
        acc = if next < 0x1_0000_0000_0000_0000u128 {
            next
        } else {
            0x1_0000_0000_0000_0000u128
        };
        i = i + 1;
    }
    assert(s@.subrange(from as int, len as int) =~= s@.skip(from as int));
    Some(acc)
}

/// Reads an unsigned integer token that fits in a `u64`.
pub fn token_u64(tok: &[u8]) -> (r: Option<u64>)
    ensures
        match r {
            Some(x) => unsigned_of(tok@) == Some(x as int),
            None => !(unsigned_of(tok@) matches Some(v) && v <= u64::MAX),
        },
{
    let from: usize = if tok.len() > 0 && tok[0] == 43 {
        1
    } else {
        0
    };
    assert(from == 1 ==> tok@.skip(1) =~= tok@.drop_first());
    assert(from == 0 ==> tok@.skip(0) =~= tok@);
    match digits_from(tok, from) {
        Some(v) => {
            if v <= u64::MAX as u128 {
                Some(v as u64)
            } else {
                None
            }
        },
        None => None,
    }
}

/// Reads an unsigned integer token that fits in a `usize`.
pub fn token_usize(tok: &[u8]) -> (r: Option<usize>)
    ensures
        match r {
            Some(x) => unsigned_of(tok@) == Some(x as int),
            None => !(unsigned_of(tok@) matches Some(v) && v <= usize::MAX),
        },
{
    match token_u64(tok) {
        Some(v) => {
            if v <= usize::MAX as u64 {
                Some(v as usize)
            } else {
                None
            }
        },
        None => None,
    }
}

/// Reads a signed integer token that fits in an `i64`.
pub fn token_i64(tok: &[u8]) -> (r: Option<i64>)
    ensures
        match r {
            Some(x) => signed_of(tok@) == Some(x as int),
            None => !(signed_of(tok@) matches Some(v) && i64::MIN <= v <= i64::MAX),
        },
{
    if tok.len() > 0 && tok[0] == 45 {
        assert(tok@.skip(1) =~= tok@.drop_first());
        match digits_from(tok, 1) {
            Some(v) => {
                if v <= 0x8000_0000_0000_0000u128 {
                    Some((0 - v as i128) as i64)
                } else {
                    None
                }
            },
            None => None,
        }
    } else {
        match token_u64(tok) {
            Some(v) => {
                if v <= i64::MAX as u64 {
                    Some(v as i64)
                } else {
                    None
                }
            },
            None => None,
        }
    }
}

/// Reads a signed integer token that fits in an `i32`.
pub fn token_i32(tok: &[u8]) -> (r: Option<i32>)
    ensures
        match r {
            Some(x) => signed_of(tok@) == Some(x as int),
            None => !(signed_of(tok@) matches Some(v) && i32::MIN <= v <= i32::MAX),
        },
{
    match token_i64(tok) {
        Some(v) => {
            if i32::MIN as i64 <= v && v <= i32::MAX as i64 {
                Some(v as i32)
            } else {
                None
            }
        },
        None => None,
    }
}

} // verus!

verus! {

/// The number of digits that `s` starts with.
pub open spec fn digit_run(s: Seq<u8>) -> nat
    decreases s.len(),
{
    if s.len() > 0 && is_digit(s[0]) {
        1 + digit_run(s.drop_first())
    } else {
        0
    }
}

/// The length of the sign (`+` or `-`) that `s` starts with: 0 or 1.
pub open spec fn sign_len(s: Seq<u8>) -> nat {
    if s.len() > 0 && (s[0] == 43 || s[0] == 45) {
        1
    } else {
        0
    }
}

/// An exponent after its `e`: an optional sign, then one or more digits.
pub open spec fn is_exponent(s: Seq<u8>) -> bool {
    let t = s.skip(sign_len(s) as int);
    t.len() > 0 && digit_run(t) == t.len()
}

/// A decimal number without sign: digits, optionally a point and more
/// digits, with at least one digit in all, then optionally an exponent.
pub open spec fn is_decimal(s: Seq<u8>) -> bool {
    let d1 = digit_run(s);
    let r1 = s.skip(d1 as int);
    let dot = r1.len() > 0 && r1[0] == 46;
    let d2 = if dot {
        digit_run(r1.drop_first())
    } else {
        0
    };
    let r2 = if dot {
        r1.skip(1 + d2 as int)
    } else {
        r1
    };
    &&& d1 + d2 > 0
    &&& (r2.len() == 0 || ((r2[0] == 101 || r2[0] == 69) && is_exponent(r2.drop_first())))
}

pub open spec fn lower(c: u8) -> u8 {
    if 65 <= c <= 90 {
        (c + 32) as u8
    } else {
        c
    }
}

/// `inf`, `infinity` or `nan`, in any mix of cases.
pub open spec fn is_special(s: Seq<u8>) -> bool {
    let l = s.map_values(|c: u8| lower(c));
    l == seq![105u8, 110, 102] || l == seq![105u8, 110, 102, 105, 110, 105, 116, 121] || l
        == seq![110u8, 97, 110]
}

/// A token in the grammar of floating-point literals: an optional sign, then
/// a decimal number or one of the special words.
pub open spec fn is_real(tok: Seq<u8>) -> bool {
    let body = tok.skip(sign_len(tok) as int);
    is_decimal(body) || is_special(body)
}

/// The end of the run of digits in `s` that starts at `from`.
fn digit_run_end(s: &[u8], from: usize) -> (r: usize)
    requires
        from <= s@.len(),
    ensures
        r == from + digit_run(s@.skip(from as int)),
        r <= s@.len(),
{
    let len = s.len();
    let mut i: usize = from;
    while i < len && 48 <= s[i] && s[i] <= 57
        invariant
            from <= i <= len == s@.len(),
            digit_run(s@.skip(from as int)) == (i - from) + digit_run(s@.skip(i as int)),
        decreases len - i,
    {
        assert(s@.skip(i as int).drop_first() =~= s@.skip(i + 1));
        i = i + 1;
    }
    i
}

fn lower_byte(c: u8) -> (r: u8)
    ensures
        r == lower(c),
{
    if 65 <= c && c <= 90 {
        c + 32
    } else {
        c
    }
}

/// Whether the bytes of `s` from `from` on spell `word` in any mix of cases;
/// `word` is in lower case.
fn spells(s: &[u8], from: usize, word: &[u8]) -> (r: bool)
    requires
        from <= s@.len(),
    ensures
        r == (s@.skip(from as int).map_values(|c: u8| lower(c)) == word@),
{
    let ghost l = s@.skip(from as int).map_values(|c: u8| lower(c));
    let slen = s.len();
    if slen - from != word.len() {
        return false;
    }
    let mut i: usize = 0;
    while i < word.len()
        invariant
            slen == s@.len(),
            from + word@.len() == s@.len(),
            i <= word@.len(),
            l == s@.skip(from as int).map_values(|c: u8| lower(c)),
            forall|k: int| 0 <= k < i ==> l[k] == word@[k],
        decreases word@.len() - i,
    {
        if lower_byte(s[from + i]) != word[i] {
            return false;
        }
        i = i + 1;
    }
    assert(l =~= word@);
    true
}

fn special_word(s: &[u8], from: usize) -> (r: bool)
    requires
        from <= s@.len(),
    ensures
        r == is_special(s@.skip(from as int)),
{
    let inf: [u8; 3] = [105, 110, 102];
    let infinity: [u8; 8] = [105, 110, 102, 105, 110, 105, 116, 121];
    let nan: [u8; 3] = [110, 97, 110];
    assert(inf@ =~= seq![105u8, 110, 102]);
    assert(infinity@ =~= seq![105u8, 110, 102, 105, 110, 105, 116, 121]);
    assert(nan@ =~= seq![110u8, 97, 110]);
    spells(s, from, &inf) || spells(s, from, &infinity) || spells(s, from, &nan)
}

/// Whether the bytes of `tok` from `x` on form an exponent.
fn exponent_at(tok: &[u8], x: usize) -> (r: bool)
    requires
        x <= tok@.len(),
    ensures
        r == is_exponent(tok@.skip(x as int)),
{
    let len = tok.len();
    let xs: usize = if x < len && (tok[x] == 43 || tok[x] == 45) {
        x + 1
    } else {
        x
    };
    assert(tok@.skip(x as int).skip(xs - x) =~= tok@.skip(xs as int));
    let dend = digit_run_end(tok, xs);
    dend > xs && dend == len
}

/// Whether the bytes of `tok` from `from` on form a decimal number.
fn decimal_at(tok: &[u8], from: usize) -> (r: bool)
    requires
        from <= tok@.len(),
    ensures
        r == is_decimal(tok@.skip(from as int)),
{
    let ghost body = tok@.skip(from as int);
    let len = tok.len();
    let d1end = digit_run_end(tok, from);
    assert(body.skip(d1end - from) =~= tok@.skip(d1end as int));
    let ghost r1 = tok@.skip(d1end as int);
    let dot = d1end < len && tok[d1end] == 46;
    let mut r2start: usize = d1end;
    let mut digits: usize = d1end - from;
    if dot {
        let d2end = digit_run_end(tok, d1end + 1);
        assert(r1.drop_first() =~= tok@.skip(d1end + 1));
        assert(r1.skip(1 + (d2end - d1end - 1)) =~= tok@.skip(d2end as int));
        r2start = d2end;
        digits = digits + (d2end - d1end - 1);
    }
    let ghost r2 = tok@.skip(r2start as int);
    if digits == 0 {
        return false;
    }
    if r2start == len {
        assert(r2.len() == 0);
        return true;
    }
    let e = tok[r2start];
    assert(r2.drop_first() =~= tok@.skip(r2start + 1));
    (e == 101 || e == 69) && exponent_at(tok, r2start + 1)
}

/// Checks a token against the grammar of floating-point literals.
pub fn real_token(tok: &[u8]) -> (r: bool)
    ensures
        r == is_real(tok@),
{
    let len = tok.len();
    let s: usize = if len > 0 && (tok[0] == 43 || tok[0] == 45) {
        1
    } else {
        0
    };
    special_word(tok, s) || decimal_at(tok, s)
}

} // verus!

verus! {

/// Whether two strings hold the same characters.
pub fn same_text(a: &str, b: &str) -> (r: bool)
    ensures
        r == (a@ == b@),
{
    let x = a.as_bytes();
    let y = b.as_bytes();
    proof {
        vstd::utf8::encode_utf8_decode_utf8(a@);
        vstd::utf8::encode_utf8_decode_utf8(b@);
    }
    if x.len() != y.len() {
        return false;
    }
    let mut i: usize = 0;
    while i < x.len()
        invariant
            x@ == a.spec_bytes(),
            y@ == b.spec_bytes(),
            x@.len() == y@.len(),
            i <= x@.len(),
            forall|j: int| 0 <= j < i ==> x@[j] == y@[j],
        decreases x@.len() - i,
    {
        if x[i] != y[i] {
            assert(x@ != y@);
            return false;
        }
        i = i + 1;
    }
    assert(x@ =~= y@);
    true
}

} // verus!
