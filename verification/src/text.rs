//! Byte-level text helpers: ASCII strings, decimal and hexadecimal numerals.

use vstd::prelude::*;
use vstd::utf8::*;

verus! {

/// The characters of an ASCII byte string.
pub open spec fn ascii_chars(b: Seq<u8>) -> Seq<char> {
    Seq::new(b.len(), |i: int| b[i] as char)
}

/// Every byte is below 128.
pub open spec fn is_ascii_bytes(b: Seq<u8>) -> bool {
    forall|i: int| 0 <= i < b.len() ==> #[trigger] b[i] < 128
}

/// The chars of an ASCII byte string encode back to the same bytes.
pub proof fn lemma_ascii_encode(b: Seq<u8>)
    requires
        is_ascii_bytes(b),
    ensures
        encode_utf8(ascii_chars(b)) == b,
        is_ascii_chars(ascii_chars(b)),
{
    let c = ascii_chars(b);
    assert(is_ascii_chars(c)) by {
        assert forall|i: int| 0 <= i < c.len() implies '\0' <= #[trigger] c[i] <= '\u{7f}' by {
            assert(b[i] < 128);
        }
    }
    is_ascii_chars_encode_utf8(c);
    assert(encode_utf8(c) =~= b) by {
        assert forall|i: int| 0 <= i < b.len() implies encode_utf8(c)[i] == b[i] by {
            assert(c[i] as u8 == encode_utf8(c)[i]);
            assert(c[i] == b[i] as char);
            assert((b[i] as char) as u8 == b[i]);
        }
    }
}

/// ASCII bytes are valid UTF-8.
pub proof fn lemma_ascii_valid_utf8(b: Seq<u8>)
    requires
        is_ascii_bytes(b),
    ensures
        valid_utf8(b),
{
    lemma_ascii_encode(b);
    encode_utf8_valid_utf8(ascii_chars(b));
}

/// Builds a `String` from bytes with `String::from_utf8`; `None` exactly when
/// the bytes are not valid UTF-8, and otherwise the string encodes to them.
#[verifier::external_body]
fn string_from_utf8(bytes: Vec<u8>) -> (r: Option<String>)
    ensures
        r is Some <==> valid_utf8(bytes@),
        r matches Some(s) ==> encode_utf8(s@) == bytes@,
{
    String::from_utf8(bytes).ok()
}

/// Builds the string whose characters are the given ASCII bytes.
pub fn ascii_string(bytes: Vec<u8>) -> (s: String)
    requires
        is_ascii_bytes(bytes@),
    ensures
        s@ == ascii_chars(bytes@),
{
    let ghost b = bytes@;
    proof {
        lemma_ascii_valid_utf8(b);
        lemma_ascii_encode(b);
    }
    match string_from_utf8(bytes) {
        Some(s) => {
            proof {
                decode_utf8_encode_utf8(encode_utf8(s@));
                encode_utf8_decode_utf8(s@);
                encode_utf8_decode_utf8(ascii_chars(b));
            }
            s
        },
        None => String::new(),
    }
}

/// The decimal numeral of `n`, most significant digit first, no leading zeros.
pub open spec fn decimal(n: nat) -> Seq<u8>
    decreases n,
{
    if n < 10 {
        seq![(48 + n) as u8]
    } else {
        decimal(n / 10).push((48 + n % 10) as u8)
    }
}

pub proof fn lemma_decimal_ascii(n: nat)
    ensures
        is_ascii_bytes(decimal(n)),
        decimal(n).len() >= 1,
        forall|i: int| 0 <= i < decimal(n).len() ==> 48 <= #[trigger] decimal(n)[i] <= 57,
    decreases n,
{
    if n >= 10 {
        lemma_decimal_ascii(n / 10);
    }
}

/// The decimal numeral of `n` is a digit string worth `n` that does not start
/// with `+`.
pub proof fn lemma_decimal_value(n: nat)
    ensures
        all_digits(decimal(n)),
        digits_value(decimal(n)) == n,
        decimal(n)[0] != 43,
    decreases n,
{
    lemma_decimal_ascii(n);
    if n >= 10 {
        lemma_decimal_value(n / 10);
        assert(decimal(n).drop_last() =~= decimal(n / 10));
        assert(decimal(n).last() == (48 + n % 10) as u8);
        assert((n / 10) * 10 + n % 10 == n) by (nonlinear_arith);
        let d = decimal(n);
        assert(digits_value(d) == digits_value(d.drop_last()) * 10 + (d.last() - 48) as nat);
    } else {
        let d = decimal(n);
        assert(d.drop_last() =~= Seq::<u8>::empty());
        assert(digits_value(d.drop_last()) == 0);
        assert(digits_value(d) == digits_value(d.drop_last()) * 10 + (d.last() - 48) as nat);
    }
}

/// `str::parse` reads the decimal numeral of `n` back as `n`.
pub proof fn lemma_decimal_parses(n: nat, max: nat)
    requires
        n <= max,
    ensures
        parse_unsigned(encode_utf8(ascii_chars(decimal(n))), max) == Some(n),
{
    lemma_decimal_value(n);
    lemma_decimal_ascii(n);
    lemma_ascii_encode(decimal(n));
}

/// The decimal digits of `n`.
pub fn decimal_bytes(n: u64) -> (r: Vec<u8>)
    ensures
        r@ == decimal(n as nat),
    decreases n,
{
    if n < 10 {
        let mut v: Vec<u8> = Vec::new();
        v.push((48 + n) as u8);
        v
    } else {
        let mut v = decimal_bytes(n / 10);
        v.push((48 + n % 10) as u8);
        v
    }
}

/// `n.to_string()` for a `usize`.
pub fn usize_to_string(n: usize) -> (s: String)
    ensures
        s@ == ascii_chars(decimal(n as nat)),
{
    proof { lemma_decimal_ascii(n as nat); }
    ascii_string(decimal_bytes(n as u64))
}

/// The decimal numeral of an integer, with a leading `-` when it is negative.
pub open spec fn signed_decimal(v: int) -> Seq<u8> {
    if v < 0 {
        seq![45u8] + decimal((-v) as nat)
    } else {
        decimal(v as nat)
    }
}

/// `v.to_string()` for an `i64`.
pub fn i64_to_string(v: i64) -> (s: String)
    ensures
        s@ == ascii_chars(signed_decimal(v as int)),
{
    let bytes = if v < 0 {
        let magnitude: u64 = (-(v as i128)) as u64;
        let mut b: Vec<u8> = vec![45u8];
        let d = decimal_bytes(magnitude);
        append_bytes(&mut b, d.as_slice());
        b
    } else {
        decimal_bytes(v as u64)
    };
    proof {
        let n: nat = if v < 0 { (-(v as int)) as nat } else { v as nat };
        lemma_decimal_ascii(n);
        assert(is_ascii_bytes(signed_decimal(v as int)));
        assert(bytes@ =~= signed_decimal(v as int));
    }
    ascii_string(bytes)
}

/// Lowercase hexadecimal digit for a value below 16.
pub open spec fn hex_digit(v: int) -> u8 {
    if v < 10 { (48 + v) as u8 } else { (87 + v) as u8 }
}

/// The two lowercase hex digits of a byte (`{:02x}`).
pub open spec fn hex2(b: u8) -> Seq<u8> {
    seq![hex_digit(b as int / 16), hex_digit(b as int % 16)]
}

pub fn hex_digit_exec(v: u8) -> (r: u8)
    requires
        v < 16,
    ensures
        r == hex_digit(v as int),
{
    if v < 10 { 48 + v } else { 87 + v }
}

/// Value of a decimal digit string (all bytes must be digits).
pub open spec fn digits_value(s: Seq<u8>) -> nat
    decreases s.len(),
{
    if s.len() == 0 {
        0
    } else {
        digits_value(s.drop_last()) * 10 + (s.last() - 48) as nat
    }
}

pub open spec fn is_digit(b: u8) -> bool {
    48 <= b <= 57
}

pub open spec fn all_digits(s: Seq<u8>) -> bool {
    forall|i: int| 0 <= i < s.len() ==> is_digit(#[trigger] s[i])
}

/// What `str::parse` for an unsigned integer type with largest value `max`
/// gives: an optional `+`, then one or more decimal digits, whose value is at
/// most `max`.
pub open spec fn parse_unsigned(s: Seq<u8>, max: nat) -> Option<nat> {
    let d = if s.len() > 0 && s[0] == 43 { s.drop_first() } else { s };
    if d.len() > 0 && all_digits(d) && digits_value(d) <= max {
        Some(digits_value(d))
    } else {
        None
    }
}

/// Parses the digit string `d[start..]` with the running value bounded by `max`.
fn digits_to_u64(d: &[u8], start: usize, max: u64) -> (r: Option<u64>)
    requires
        start <= d.len(),
    ensures
        ({
            let s = d@.subrange(start as int, d@.len() as int);
            match r {
                Some(v) => all_digits(s) && digits_value(s) <= max && v == digits_value(s),
                None => !(all_digits(s) && digits_value(s) <= max),
            }
        }),
{
    let mut i: usize = start;
    let mut acc: u64 = 0;
    while i < d.len()
        invariant
            start <= i <= d.len(),
            all_digits(d@.subrange(start as int, i as int)),
            acc == digits_value(d@.subrange(start as int, i as int)),
            acc <= max,
        decreases d.len() - i,
    {
        let ghost pre = d@.subrange(start as int, i as int);
        let ghost next = d@.subrange(start as int, i + 1);
        assert(next.drop_last() =~= pre);
        let c = d[i];
        if c < 48 || c > 57 {
            proof {
                let s = d@.subrange(start as int, d@.len() as int);
                assert(s[i - start] == c);
            }
            return None;
        }
        let dv = (c - 48) as u64;
        if dv > max || acc > (max - dv) / 10 {
            proof {
                let s = d@.subrange(start as int, d@.len() as int);
                assert(digits_value(next) == acc * 10 + dv);
                assert(digits_value(next) > max);
                if all_digits(s) {
                    lemma_digits_prefix_monotone(s, i + 1 - start);
                    assert(s.subrange(0, i + 1 - start) =~= next);
                }
            }
            return None;
        }
        acc = acc * 10 + dv;
        i = i + 1;
    }
    assert(d@.subrange(start as int, i as int) =~= d@.subrange(start as int, d@.len() as int));
    Some(acc)
}

/// Over digit strings the value of a prefix never exceeds that of the whole.
pub proof fn lemma_digits_prefix_monotone(s: Seq<u8>, k: int)
    requires
        0 <= k <= s.len(),
        all_digits(s),
    ensures
        digits_value(s.subrange(0, k)) <= digits_value(s),
    decreases s.len() - k,
{
    if k < s.len() {
        lemma_digits_prefix_monotone(s, k + 1);
        let p = s.subrange(0, k + 1);
        assert(p.drop_last() =~= s.subrange(0, k));
        assert(is_digit(s[k]));
    } else {
        assert(s.subrange(0, k) =~= s);
    }
}

/// `str::parse::<u64>`-style parsing of a byte string bounded by `max`.
pub fn parse_unsigned_bytes(s: &[u8], max: u64) -> (r: Option<u64>)
    ensures
        match r {
            Some(v) => parse_unsigned(s@, max as nat) == Some(v as nat),
            None => parse_unsigned(s@, max as nat) is None,
        },
{
    let start: usize = if s.len() > 0 && s[0] == 43 { 1 } else { 0 };
    proof {
        if start == 1 {
            assert(s@.drop_first() =~= s@.subrange(1, s@.len() as int));
        } else {
            assert(s@ =~= s@.subrange(0, s@.len() as int));
        }
    }
    if start == s.len() {
        return None;
    }
    digits_to_u64(s, start, max)
}

/// Appends the bytes of `s` to `v`.
pub fn append_bytes(v: &mut Vec<u8>, s: &[u8])
    ensures
        final(v)@ == old(v)@ + s@,
{
    let mut i: usize = 0;
    while i < s.len()
        invariant
            i <= s.len(),
            v@ == old(v)@ + s@.subrange(0, i as int),
        decreases s.len() - i,
    {
        v.push(s[i]);
        i = i + 1;
        assert(v@ =~= old(v)@ + s@.subrange(0, i as int));
    }
    assert(s@.subrange(0, i as int) =~= s@);
}

/// A new vector holding the bytes of `s`.
pub fn copy_bytes(s: &[u8]) -> (r: Vec<u8>)
    ensures
        r@ == s@,
{
    let mut r: Vec<u8> = Vec::new();
    append_bytes(&mut r, s);
    assert(r@ =~= s@);
    r
}

/// The pieces of `s` between occurrences of `sep`, as `str::split` gives them
/// (always at least one piece).
pub open spec fn split_on(s: Seq<u8>, sep: u8) -> Seq<Seq<u8>>
    decreases s.len(),
{
    if s.len() == 0 {
        seq![Seq::<u8>::empty()]
    } else {
        let r = split_on(s.drop_last(), sep);
        if s.last() == sep {
            r.push(Seq::<u8>::empty())
        } else {
            r.update(r.len() - 1, r.last().push(s.last()))
        }
    }
}

/// `sep` does not occur in `s`.
pub open spec fn free_of(s: Seq<u8>, sep: u8) -> bool {
    forall|i: int| 0 <= i < s.len() ==> #[trigger] s[i] != sep
}

pub proof fn lemma_split_len(s: Seq<u8>, sep: u8)
    ensures
        split_on(s, sep).len() >= 1,
    decreases s.len(),
{
    if s.len() > 0 {
        lemma_split_len(s.drop_last(), sep);
    }
}

/// Appending text free of the separator extends the last piece.
pub proof fn lemma_split_append_free(t: Seq<u8>, d: Seq<u8>, sep: u8)
    requires
        free_of(d, sep),
    ensures
        split_on(t + d, sep) == split_on(t, sep).update(
            split_on(t, sep).len() - 1,
            split_on(t, sep).last() + d,
        ),
    decreases d.len(),
{
    lemma_split_len(t, sep);
    if d.len() == 0 {
        assert(t + d =~= t);
        assert(split_on(t, sep).last() + d =~= split_on(t, sep).last());
        assert(split_on(t, sep).update(split_on(t, sep).len() - 1, split_on(t, sep).last())
            =~= split_on(t, sep));
    } else {
        let d0 = d.drop_last();
        lemma_split_append_free(t, d0, sep);
        assert((t + d).drop_last() =~= t + d0);
        assert((t + d).last() == d.last());
        let r = split_on(t, sep);
        assert(r.last() + d0 + seq![d.last()] =~= r.last() + d);
        assert((r.last() + d0).push(d.last()) =~= r.last() + d);
        assert(split_on(t + d, sep) =~= r.update(r.len() - 1, r.last() + d));
    }
}

/// Appending the separator starts a new, empty piece.
pub proof fn lemma_split_append_sep(t: Seq<u8>, sep: u8)
    ensures
        split_on(t.push(sep), sep) == split_on(t, sep).push(Seq::<u8>::empty()),
{
    assert(t.push(sep).drop_last() =~= t);
}

/// Splitting `a sep b sep c sep d` with no separator inside the four parts.
pub proof fn lemma_split_four(a: Seq<u8>, b: Seq<u8>, c: Seq<u8>, d: Seq<u8>, sep: u8)
    requires
        free_of(a, sep),
        free_of(b, sep),
        free_of(c, sep),
        free_of(d, sep),
    ensures
        split_on(a + seq![sep] + b + seq![sep] + c + seq![sep] + d, sep) == seq![a, b, c, d],
{
    let e = Seq::<u8>::empty();
    lemma_split_append_free(e, a, sep);
    assert(e + a =~= a);
    assert(split_on(e, sep) =~= seq![e]);
    assert(seq![e].update(0, e + a) =~= seq![a]);
    assert(split_on(a, sep) =~= seq![a]);
    lemma_split_append_sep(a, sep);
    assert(a.push(sep) =~= a + seq![sep]);
    let t1 = a + seq![sep];
    lemma_split_append_free(t1, b, sep);
    assert(seq![a, e].update(1, e + b) =~= seq![a, b]);
    assert(e + b =~= b);
    let t2 = t1 + b;
    lemma_split_append_sep(t2, sep);
    assert(t2.push(sep) =~= t2 + seq![sep]);
    let t3 = t2 + seq![sep];
    lemma_split_append_free(t3, c, sep);
    assert(e + c =~= c);
    assert(seq![a, b, e].update(2, e + c) =~= seq![a, b, c]);
    let t4 = t3 + c;
    lemma_split_append_sep(t4, sep);
    assert(t4.push(sep) =~= t4 + seq![sep]);
    let t5 = t4 + seq![sep];
    lemma_split_append_free(t5, d, sep);
    assert(e + d =~= d);
    assert(seq![a, b, c, e].update(3, e + d) =~= seq![a, b, c, d]);
}

/// Splitting `a sep b sep c sep d` with no separator inside the four parts.
pub proof fn lemma_split_four_exact(a: Seq<u8>, b: Seq<u8>, c: Seq<u8>, d: Seq<u8>, sep: u8)
    requires
        free_of(a, sep),
        free_of(b, sep),
        free_of(c, sep),
        free_of(d, sep),
    ensures
        split_on(a + (seq![sep] + (b + (seq![sep] + (c + (seq![sep] + d))))), sep) == seq![a, b, c, d],
{
    lemma_split_four(a, b, c, d, sep);
    assert(a + (seq![sep] + (b + (seq![sep] + (c + (seq![sep] + d))))) =~= a + seq![sep] + b
        + seq![sep] + c + seq![sep] + d);
}

/// Each range of `r` lies below `bound` and cuts out the matching piece.
pub open spec fn ranges_cut(s: Seq<u8>, r: Seq<(usize, usize)>, pieces: Seq<Seq<u8>>, bound: int) -> bool {
    forall|k: int|
        #![trigger r[k]]
        0 <= k < r.len() ==> r[k].0 <= r[k].1 <= bound && s.subrange(
            r[k].0 as int,
            r[k].1 as int,
        ) == pieces[k]
}

/// The start and end of each piece of `s` split at `sep`.
pub fn split_ranges(s: &[u8], sep: u8) -> (r: Vec<(usize, usize)>)
    ensures
        r@.len() == split_on(s@, sep).len(),
        forall|k: int|
            #![trigger r@[k]]
            0 <= k < r@.len() ==> r@[k].0 <= r@[k].1 <= s@.len() && s@.subrange(
                r@[k].0 as int,
                r@[k].1 as int,
            ) == split_on(s@, sep)[k],
{
    let mut r: Vec<(usize, usize)> = Vec::new();
    let mut start: usize = 0;
    let mut i: usize = 0;
    while i < s.len()
        invariant
            i <= s.len(),
            start <= i,
            r@.len() + 1 == split_on(s@.subrange(0, i as int), sep).len(),
            ranges_cut(s@, r@, split_on(s@.subrange(0, i as int), sep), i as int),
            s@.subrange(start as int, i as int) == split_on(s@.subrange(0, i as int), sep).last(),
        decreases s.len() - i,
    {
        let ghost p = s@.subrange(0, i as int);
        let ghost q = s@.subrange(0, i + 1);
        assert(q.drop_last() =~= p);
        proof { lemma_split_len(p, sep); }
        let ghost sp = split_on(p, sep);
        let ghost old_r = r@;
        if s[i] == sep {
            assert(split_on(q, sep) == sp.push(Seq::<u8>::empty()));
            r.push((start, i));
            assert(ranges_cut(s@, r@, split_on(q, sep), i + 1)) by {
                assert forall|k: int| #![trigger r@[k]] 0 <= k < r@.len() implies r@[k].0 <= r@[k].1 <= i + 1
                    && s@.subrange(r@[k].0 as int, r@[k].1 as int) == split_on(q, sep)[k] by {
                    if k < old_r.len() {
                        assert(r@[k] == old_r[k]);
                        assert(split_on(q, sep)[k] == sp[k]);
                    } else {
                        assert(split_on(q, sep)[k] == sp.last());
                    }
                }
            }
            start = i + 1;
            i = i + 1;
            assert(s@.subrange(start as int, i as int) =~= Seq::<u8>::empty());
        } else {
            assert(split_on(q, sep) == sp.update(sp.len() - 1, sp.last().push(s@[i as int])));
            assert(ranges_cut(s@, r@, split_on(q, sep), i + 1)) by {
                assert forall|k: int| #![trigger r@[k]] 0 <= k < r@.len() implies r@[k].0 <= r@[k].1 <= i + 1
                    && s@.subrange(r@[k].0 as int, r@[k].1 as int) == split_on(q, sep)[k] by {
                    assert(split_on(q, sep)[k] == sp[k]);
                }
            }
            i = i + 1;
            assert(s@.subrange(start as int, i as int) =~= s@.subrange(start as int, i - 1).push(
                s@[i - 1],
            ));
        }
    }
    assert(s@.subrange(0, i as int) =~= s@);
    let ghost old_r = r@;
    r.push((start, i));
    assert(ranges_cut(s@, r@, split_on(s@, sep), s@.len() as int)) by {
        assert forall|k: int| #![trigger r@[k]] 0 <= k < r@.len() implies r@[k].0 <= r@[k].1 <= s@.len()
            && s@.subrange(r@[k].0 as int, r@[k].1 as int) == split_on(s@, sep)[k] by {
            if k < old_r.len() {
                assert(r@[k] == old_r[k]);
            }
        }
    }
    r
}

/// `s` begins with `p`.
pub open spec fn starts_with(s: Seq<u8>, p: Seq<u8>) -> bool {
    p.len() <= s.len() && s.subrange(0, p.len() as int) == p
}

/// Whether `s` begins with `p`.
pub fn bytes_start_with(s: &[u8], p: &[u8]) -> (r: bool)
    ensures
        r == starts_with(s@, p@),
{
    if p.len() > s.len() {
        return false;
    }
    let mut i: usize = 0;
    while i < p.len()
        invariant
            p.len() <= s.len(),
            i <= p.len(),
            forall|j: int| 0 <= j < i ==> s@[j] == p@[j],
        decreases p.len() - i,
    {
        if s[i] != p[i] {
            assert(s@.subrange(0, p.len() as int)[i as int] != p@[i as int]);
            return false;
        }
        i = i + 1;
    }
    assert(s@.subrange(0, p.len() as int) =~= p@);
    true
}

/// Whether two byte strings are equal.
pub fn bytes_equal(a: &[u8], b: &[u8]) -> (r: bool)
    ensures
        r == (a@ == b@),
{
    if a.len() != b.len() {
        return false;
    }
    let r = bytes_start_with(a, b);
    proof {
        if r {
            assert(a@.subrange(0, b@.len() as int) =~= a@);
        } else {
            if a@ == b@ {
                assert(a@.subrange(0, b@.len() as int) =~= a@);
            }
        }
    }
    r
}

/// `s.to_string()` built from `String::from_str` and appends.
pub fn string_of(s: &str) -> (r: String)
    ensures
        r@ == s@,
{
    String::from_str(s)
}

} // verus!
