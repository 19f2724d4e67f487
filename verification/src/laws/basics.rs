//! Numbers, texts and JSON, as everything else takes them.

use vstd::arithmetic::power2::*;
use vstd::prelude::*;

use crate::json::{distinct, lemma_lookup, lookup, with, JsonView};
use crate::number::{fixed_of, hundredths, le, lemma_order, level_of, lt, magnitude, nearest, steps, value, RealView};
use crate::text::{
    all_digits, decimal_of, digit, digits_value, is_white, kept, listed, occurs, occurs_at, octal4_of, pieces, trimmed,
    whole_of, without_leading, without_trailing,
};

verus! {

/// The doubles are ordered as their patterns are: upwards among those that are not negative,
/// downwards among the negative ones, and the two zeros are equal. What is not a number is
/// neither at most nor at least anything.
pub proof fn lemma_doubles_in_order(a: u64, b: u64)
    ensures
        a <= 0x7ff0_0000_0000_0000 && b <= 0x7ff0_0000_0000_0000 ==> (le(a, b) <==> a <= b) && (lt(a, b) <==> a < b),
        0x8000_0000_0000_0000 <= a <= 0xfff0_0000_0000_0000 && 0x8000_0000_0000_0000 <= b <= 0xfff0_0000_0000_0000 ==> (
        le(a, b) <==> b <= a) && (lt(a, b) <==> b < a),
        0x8000_0000_0000_0000 <= a <= 0xfff0_0000_0000_0000 && b <= 0x7ff0_0000_0000_0000 ==> le(a, b) && !lt(b, a) && (
        le(b, a) <==> a == 0x8000_0000_0000_0000 && b == 0) && (lt(a, b) <==> !le(b, a)),
        (0x7ff0_0000_0000_0000 < a < 0x8000_0000_0000_0000 || 0xfff0_0000_0000_0000 < a) ==> !le(a, b) && !le(b, a)
            && !lt(a, b) && !lt(b, a),
{
    lemma_order(a, b);
    lemma_order(b, a);
}

/// The value of a double: 1 is one, the next higher exponent doubles it, the sign bit turns it
/// round, and between two powers of two the doubles are equally far apart.
pub proof fn lemma_doubles_have_their_values(bits: u64)
    ensures
        value(0x3ff0_0000_0000_0000) == pow2(1074),
        value(0) == 0 && value(1) == 1,
        bits < 0x8000_0000_0000_0000 ==> value((bits + 0x8000_0000_0000_0000) as u64) == -value(bits),
        0x0010_0000_0000_0000 <= bits < 0x7fe0_0000_0000_0000 ==> value((bits + 0x0010_0000_0000_0000) as u64) == 2
            * value(bits),
        bits < 0x0010_0000_0000_0000 ==> value(bits) == bits,
        0x0010_0000_0000_0000 <= bits < 0x0020_0000_0000_0000 ==> value(bits) == bits,
{
    let h = 0x0010_0000_0000_0000nat;
    lemma2_to64();
    assert(0x3ff0_0000_0000_0000nat / h == 1023 && 0x3ff0_0000_0000_0000nat % h == 0);
    lemma2_to64_rest();
    lemma_pow2_adds(52, 1022);
    assert(pow2(0) == 1);
    if 0x0010_0000_0000_0000 <= bits < 0x7fe0_0000_0000_0000 {
        let m = bits as nat;
        let e = m / h;
        assert((m + h) / h == e + 1 && (m + h) % h == m % h);
        lemma_pow2_unfold(e);
        let f = h + m % h;
        assert(f * pow2(e) == 2 * (f * pow2((e - 1) as nat))) by (nonlinear_arith)
            requires
                pow2(e) == 2 * pow2((e - 1) as nat),
        ;
        if e == 1 {
            assert(f * 1 == f);
        }
    }
}

/// The level of a score is the whole number nearest to it, halves upwards, and 0 for one that is
/// negative. From 2^53 on every double is whole and is its own level; what is not a number has
/// level 0.
pub proof fn lemma_the_nearest_level(r: RealView, k: nat)
    ensures
        r.bits >= 0x8000_0000_0000_0000 || r.bits > 0x7ff0_0000_0000_0000 ==> level_of(r) == decimal_of(0),
        0x4340_0000_0000_0000 <= r.bits <= 0x7ff0_0000_0000_0000 ==> level_of(r) == r.plain,
        r.bits < 0x4340_0000_0000_0000 && (2 * k - 1) * pow2(1074) <= 2 * value(r.bits) < (2 * k + 1) * pow2(1074) ==> level_of(r)
            == decimal_of(k),
{
    let v = value(r.bits);
    let unit = pow2(1074) as int;
    lemma_pow2_pos(1074);
    lemma_pow2_unfold(1075);
    lemma_order(r.bits, 0);
    lemma_order(0, r.bits);
    if r.bits < 0x4340_0000_0000_0000 && (2 * k - 1) * unit <= 2 * v < (2 * k + 1) * unit {
        let d = pow2(1075) as int;
        let r0 = 2 * v + unit - k * d;
        assert(0 <= r0 < d && 2 * v + unit == k * d + r0) by (nonlinear_arith)
            requires
                d == 2 * unit,
                (2 * k - 1) * unit <= 2 * v < (2 * k + 1) * unit,
                r0 == 2 * v + unit - k * d,
        ;
        vstd::arithmetic::div_mod::lemma_fundamental_div_mod_converse(2 * v + unit, d, k as int, r0);
        assert(nearest(v) == k);
        if v == 0 {
            assert(k == 0) by (nonlinear_arith)
                requires
                    (2 * k - 1) * unit <= 0,
                    unit > 0,
                    k >= 0,
            ;
        }
    }
}

/// A double with two decimals is its nearest hundredth: the digits stand for a number of
/// hundredths that is at most half a hundredth away, and of two that are equally near it is the
/// even one.
pub proof fn lemma_the_nearest_hundredth(bits: u64)
    requires
        bits < 0x7ff0_0000_0000_0000,
    ensures
        exists|h: nat|
            {
                &&& #[trigger] decimal_of(h / 100) + "."@ + seq![digit(h / 10 % 10), digit(h % 10)] == fixed_of(bits)
                &&& 2 * (100 * value(bits) - h * pow2(1074)) <= pow2(1074)
                &&& 2 * (h * pow2(1074) - 100 * value(bits)) <= pow2(1074)
                &&& 2 * (100 * value(bits) - h * pow2(1074)) == pow2(1074) || 2 * (h * pow2(1074) - 100 * value(bits))
                    == pow2(1074) ==> h % 2 == 0
            },
        fixed_of((bits + 0x8000_0000_0000_0000) as u64) == "-"@ + fixed_of(bits),
{
    let size = steps(magnitude(bits));
    let unit = pow2(1074) as int;
    lemma_pow2_pos(1074);
    let h = hundredths(size);
    let down = 100 * size / pow2(1074);
    let rest = 100 * size % pow2(1074);
    vstd::arithmetic::div_mod::lemma_fundamental_div_mod(100 * size as int, unit);
    assert(100 * size == unit * down + rest);
    assert(down * unit == unit * down) by (nonlinear_arith);
    assert((down + 1) * unit == unit * down + unit) by (nonlinear_arith);
    reveal_strlit("");
    let text = decimal_of(h / 100) + "."@ + seq![digit(h / 10 % 10), digit(h % 10)];
    assert(fixed_of(bits) =~= text);
    let other = (bits + 0x8000_0000_0000_0000) as u64;
    assert(magnitude(other) == magnitude(bits));
    assert(fixed_of(other) =~= "-"@ + fixed_of(bits));
}

/// A whole number in decimal is its digits and nothing else, without a zero in front, and reads
/// back as the number.
pub proof fn lemma_decimals_read_back(n: nat)
    ensures
        all_digits(decimal_of(n)),
        digits_value(decimal_of(n)) == n,
        decimal_of(n).len() > 0,
        n > 0 ==> decimal_of(n)[0] != '0',
        n <= u64::MAX ==> whole_of(decimal_of(n)) == Some(n as u64),
    decreases n,
{
    let s = decimal_of(n);
    if n >= 10 {
        lemma_decimals_read_back(n / 10);
        let front = decimal_of(n / 10);
        assert(s.drop_last() =~= front);
        assert(s.last() == digit(n % 10));
        assert(s[0] == front[0]);
        assert forall|i: int| 0 <= i < s.len() implies '0' <= #[trigger] s[i] <= '9' by {
            if i < front.len() {
                assert(s[i] == front[i]);
            }
        }
    } else {
        assert(s.drop_last() =~= Seq::<char>::empty());
        assert(digits_value(s.drop_last()) == 0);
        assert(s.last() == digit(n));
    }
    assert(s[0] != '+');
}

/// A run of digits counts in tens, and a text is a whole number exactly if it is such a run, with
/// a plus in front or without, that does not run over.
pub proof fn lemma_which_texts_are_whole_numbers(s: Seq<char>, c: char)
    ensures
        digits_value(Seq::empty()) == 0,
        '0' <= c <= '9' ==> digits_value(s.push(c)) == 10 * digits_value(s) + (c as nat - 48),
        s.len() > 0 && all_digits(s) && digits_value(s) <= u64::MAX ==> whole_of(s) == Some(digits_value(s) as u64)
            && whole_of(seq!['+'] + s) == whole_of(s),
        s.len() == 0 || digits_value(s) > u64::MAX && all_digits(s) ==> whole_of(s) is None,
        (exists|i: int| 0 <= i < s.len() && !('0' <= s[i] <= '9') && !(i == 0 && s[i] == '+')) ==> whole_of(s) is None,
{
    assert(s.push(c).drop_last() =~= s);
    let plus = seq!['+'] + s;
    assert(plus.subrange(1, plus.len() as int) =~= s);
    if s.len() > 0 && all_digits(s) {
        assert('0' <= s[0] <= '9');
    }
    if exists|i: int| 0 <= i < s.len() && !('0' <= s[i] <= '9') && !(i == 0 && s[i] == '+') {
        let i = choose|i: int| 0 <= i < s.len() && !('0' <= s[i] <= '9') && !(i == 0 && s[i] == '+');
        if s[0] == '+' {
            let body = s.subrange(1, s.len() as int);
            assert(body[i - 1] == s[i]);
            assert(!all_digits(body));
        } else {
            assert(!all_digits(s));
        }
    }
}

/// Four octal digits stand for the number.
pub proof fn lemma_octal_digits(n: nat)
    requires
        n < 4096,
    ensures
        octal4_of(n).len() == 4,
        forall|i: int| 0 <= i < 4 ==> '0' <= #[trigger] octal4_of(n)[i] <= '7',
        n == 512 * (octal4_of(n)[0] as nat - 48) + 64 * (octal4_of(n)[1] as nat - 48) + 8 * (octal4_of(n)[2] as nat - 48)
            + (octal4_of(n)[3] as nat - 48),
{
}

/// White space is what Unicode calls so: the six of ASCII, and nineteen more.
pub proof fn lemma_what_is_white(c: char)
    ensures
        is_white(c) <==> {
            let n = c as u32;
            ||| n == 9 || n == 10 || n == 11 || n == 12 || n == 13 || n == 32
            ||| n == 0x85 || n == 0xa0 || n == 0x1680 || (0x2000 <= n && n <= 0x200a)
            ||| n == 0x2028 || n == 0x2029 || n == 0x202f || n == 0x205f || n == 0x3000
        },
{
}

proof fn lemma_lead(s: Seq<char>) -> (i: int)
    ensures
        0 <= i <= s.len(),
        without_leading(s) == s.subrange(i, s.len() as int),
        forall|k: int| 0 <= k < i ==> is_white(#[trigger] s[k]),
        i < s.len() ==> !is_white(s[i]),
    decreases s.len(),
{
    if s.len() > 0 && is_white(s[0]) {
        let rest = s.subrange(1, s.len() as int);
        let j = lemma_lead(rest);
        assert(rest.subrange(j, rest.len() as int) =~= s.subrange(j + 1, s.len() as int));
        assert forall|k: int| 0 <= k < j + 1 implies is_white(#[trigger] s[k]) by {
            if k > 0 {
                assert(rest[k - 1] == s[k]);
            }
        }
        if j < rest.len() {
            assert(rest[j] == s[j + 1]);
        }
        j + 1
    } else {
        assert(s.subrange(0, s.len() as int) =~= s);
        0
    }
}

proof fn lemma_trail(s: Seq<char>) -> (i: int)
    ensures
        0 <= i <= s.len(),
        without_trailing(s) == s.subrange(0, i),
        forall|k: int| i <= k < s.len() ==> is_white(#[trigger] s[k]),
        i > 0 ==> !is_white(s[i - 1]),
    decreases s.len(),
{
    if s.len() > 0 && is_white(s.last()) {
        let rest = s.drop_last();
        let j = lemma_trail(rest);
        assert(rest.subrange(0, j) =~= s.subrange(0, j));
        assert forall|k: int| j <= k < s.len() implies is_white(#[trigger] s[k]) by {
            if k < s.len() - 1 {
                assert(rest[k] == s[k]);
            }
        }
        if j > 0 {
            assert(rest[j - 1] == s[j - 1]);
        }
        j
    } else {
        assert(s.subrange(0, s.len() as int) =~= s);
        s.len() as int
    }
}

/// Trimming takes the white space at both ends and nothing else: what is left is one stretch of
/// the text, everything around it is white, and it neither begins nor ends with any.
pub proof fn lemma_what_trimming_takes(s: Seq<char>)
    ensures
        exists|i: int, j: int|
            {
                &&& 0 <= i <= j <= s.len()
                &&& trimmed(s) == #[trigger] s.subrange(i, j)
                &&& forall|k: int| 0 <= k < s.len() && !(i <= k < j) ==> is_white(#[trigger] s[k])
            },
        trimmed(s).len() > 0 ==> !is_white(trimmed(s)[0]) && !is_white(trimmed(s).last()),
{
    let i = lemma_lead(s);
    let lead = without_leading(s);
    let j = lemma_trail(lead);
    assert(trimmed(s) =~= s.subrange(i, i + j));
    assert forall|k: int| 0 <= k < s.len() && !(i <= k < i + j) implies is_white(#[trigger] s[k]) by {
        if k >= i + j {
            assert(lead[k - i] == s[k]);
        }
    }
    if j > 0 {
        assert(trimmed(s)[0] == lead[0]);
        assert(trimmed(s).last() == lead[j - 1]);
    }
}

/// A text occurs in another exactly if the other is something, the text, and something more.
pub proof fn lemma_what_occurs(text: Seq<char>, needle: Seq<char>, a: Seq<char>, b: Seq<char>)
    ensures
        occurs(a + needle + b, needle),
        occurs(text, needle) ==> exists|i: int|
            0 <= i <= text.len() - needle.len() && #[trigger] text.subrange(i, i + needle.len()) == needle,
{
    let whole = a + needle + b;
    assert(whole.subrange(a.len() as int, (a.len() + needle.len()) as int) =~= needle);
    assert(occurs_at(whole, needle, a.len() as int));
    if occurs(text, needle) {
        let i = choose|i: int| occurs_at(text, needle, i);
        assert(text.subrange(i, i + needle.len()) == needle);
    }
}

proof fn lemma_kept_parts(a: Seq<Seq<char>>, b: Seq<Seq<char>>)
    ensures
        kept(a + b) == kept(a) + kept(b),
    decreases b.len(),
{
    if b.len() == 0 {
        assert(a + b =~= a);
        assert(kept(a) + kept(b) =~= kept(a));
    } else {
        lemma_kept_parts(a, b.drop_last());
        assert((a + b).drop_last() =~= a + b.drop_last());
        assert((a + b).last() == b.last());
        assert(kept(a + b) =~= kept(a) + kept(b));
    }
}

proof fn lemma_pieces_meet(a: Seq<char>, b: Seq<char>)
    ensures
        pieces(a).len() > 0,
        pieces(b).len() > 0,
        pieces(a.push(',') + b) == pieces(a) + pieces(b),
    decreases b.len(),
{
    lemma_some_piece(a);
    lemma_some_piece(b);
    if b.len() == 0 {
        assert(a.push(',') + b =~= a.push(','));
        assert(a.push(',').drop_last() =~= a);
        assert(pieces(a).push(Seq::empty()) =~= pieces(a) + pieces(b));
    } else {
        let less = b.drop_last();
        lemma_pieces_meet(a, less);
        assert((a.push(',') + b).drop_last() =~= a.push(',') + less);
        assert((a.push(',') + b).last() == b.last());
        let p = pieces(a) + pieces(less);
        assert(p.last() == pieces(less).last());
        assert(p.drop_last() =~= pieces(a) + pieces(less).drop_last());
        assert(pieces(a.push(',') + b) =~= pieces(a) + pieces(b));
    }
}

proof fn lemma_some_piece(s: Seq<char>)
    ensures
        pieces(s).len() > 0,
    decreases s.len(),
{
    if s.len() > 0 {
        lemma_some_piece(s.drop_last());
    }
}

proof fn lemma_one_piece(s: Seq<char>)
    requires
        forall|i: int| 0 <= i < s.len() ==> s[i] != ',',
    ensures
        pieces(s) == seq![s],
    decreases s.len(),
{
    if s.len() == 0 {
        assert(s =~= Seq::empty());
        assert(pieces(s) =~= seq![s]);
    } else {
        assert forall|i: int| 0 <= i < s.len() - 1 implies s.drop_last()[i] != ',' by {
            assert(s[i] != ',');
        }
        lemma_one_piece(s.drop_last());
        assert(s[s.len() - 1] != ',');
        assert(s.drop_last().push(s.last()) =~= s);
        assert(pieces(s) =~= seq![s]);
    }
}

/// A comma parts a list: what stands before it and what stands behind it are listed one after
/// the other. A stretch without a comma is one item, without the white space around it, or none
/// where nothing is left.
pub proof fn lemma_a_comma_parts_a_list(a: Seq<char>, b: Seq<char>)
    ensures
        listed(a.push(',') + b) == listed(a) + listed(b),
        (forall|i: int| 0 <= i < a.len() ==> a[i] != ',') ==> listed(a) == (if trimmed(a).len() > 0 {
            seq![trimmed(a)]
        } else {
            Seq::empty()
        }),
{
    lemma_pieces_meet(a, b);
    lemma_kept_parts(pieces(a), pieces(b));
    if forall|i: int| 0 <= i < a.len() ==> a[i] != ',' {
        lemma_one_piece(a);
        let p = seq![a];
        assert(p.drop_last() =~= Seq::<Seq<char>>::empty());
        assert(kept(p.drop_last()) =~= Seq::<Seq<char>>::empty());
        assert(kept(p) =~= (if trimmed(a).len() > 0 {
            seq![trimmed(a)]
        } else {
            Seq::empty()
        }));
    }
}

/// What stands under a key is the value of an entry with that key, and a key without an entry
/// has nothing under it; of entries whose keys are all different, each is under its own key.
pub proof fn lemma_what_stands_under_a_key(m: Seq<(Seq<char>, JsonView)>, key: Seq<char>, i: int)
    ensures
        lookup(m, key) matches Some(v) ==> m.contains((key, v)),
        lookup(m, key) is None ==> forall|k: int| 0 <= k < m.len() ==> (#[trigger] m[k]).0 != key,
        distinct(m) && 0 <= i < m.len() ==> lookup(m, m[i].0) == Some(m[i].1),
{
    lemma_lookup(m, key);
    if distinct(m) && 0 <= i < m.len() {
        crate::json::lemma_lookup_at(m, i);
    }
    if let Some(v) = lookup(m, key) {
        let k = choose|k: int| 0 <= k < m.len() && #[trigger] m[k] == (key, v);
        assert(m.contains(m[k]));
    }
}

/// Setting a key leaves every entry where it was: one that has the key gets the value, and where
/// there is none, one is added at the end.
pub proof fn lemma_setting_a_key_moves_nothing(m: Seq<(Seq<char>, JsonView)>, key: Seq<char>, value: JsonView, i: int)
    requires
        0 <= i < m.len(),
    ensures
        with(m, key, value)[i] == (if m[i].0 == key {
            (key, value)
        } else {
            m[i]
        }),
        with(m, key, value).len() == m.len() + (if exists|k: int| 0 <= k < m.len() && (#[trigger] m[k]).0 == key {
            0int
        } else {
            1int
        }),
        with(m, key, value).contains((key, value)),
{
    lemma_lookup(m, key);
    if lookup(m, key) is Some {
        let k = choose|k: int| 0 <= k < m.len() && (#[trigger] m[k]).0 == key;
        assert(with(m, key, value)[k] == (key, value));
    } else {
        assert(m[i].0 != key);
        assert(with(m, key, value)[m.len() as int] == (key, value));
    }
}

/// A double that is infinite or no number is shown as such.
pub proof fn lemma_what_has_no_decimals(bits: u64)
    ensures
        fixed_of(0x7ff0_0000_0000_0000) == "inf"@,
        fixed_of(0xfff0_0000_0000_0000) == "-"@ + "inf"@,
        0x7ff0_0000_0000_0000 < bits < 0x8000_0000_0000_0000 || bits > 0xfff0_0000_0000_0000 ==> fixed_of(bits) == "NaN"@,
{
    reveal_strlit("");
    assert(fixed_of(0x7ff0_0000_0000_0000) =~= "inf"@);
}

}
