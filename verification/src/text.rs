//! Text, character by character: comparing, searching, trimming, splitting and the decimal
//! forms of whole numbers. Every contract speaks of the sequence of characters.

use vstd::arithmetic::power2::*;
use vstd::prelude::*;

verus! {

/// Whether two texts are the same, character for character.
pub fn same(a: &str, b: &str) -> (r: bool)
    ensures
        r == (a@ == b@),
{
    a.to_owned() == b.to_owned()
}

/// The characters of a text, in order.
pub fn chars_of(s: &str) -> (r: Vec<char>)
    ensures
        r@ == s@,
{
    let mut out: Vec<char> = Vec::new();
    for c in it: s.chars()
        invariant
            it.seq() == s@,
            out@ == s@.take(it.index()),
    {
        out.push(c);
    }
    proof {
        assert(s@.take(s@.len() as int) == s@);
    }
    out
}

/// Two texts, one after the other.
pub fn cat(a: &str, b: &str) -> (r: String)
    ensures
        r@ == a@ + b@,
{
    a.to_owned().concat(b)
}

/// Three texts, one after the other.
pub fn cat3(a: &str, b: &str, c: &str) -> (r: String)
    ensures
        r@ == a@ + b@ + c@,
{
    a.to_owned().concat(b).concat(c)
}

/// Four texts, one after the other.
pub fn cat4(a: &str, b: &str, c: &str, d: &str) -> (r: String)
    ensures
        r@ == a@ + b@ + c@ + d@,
{
    a.to_owned().concat(b).concat(c).concat(d)
}

/// Five texts, one after the other.
pub fn cat5(a: &str, b: &str, c: &str, d: &str, e: &str) -> (r: String)
    ensures
        r@ == a@ + b@ + c@ + d@ + e@,
{
    a.to_owned().concat(b).concat(c).concat(d).concat(e)
}

/// `needle` occurs somewhere in `text`.
pub open spec fn occurs(text: Seq<char>, needle: Seq<char>) -> bool {
    exists|i: int| #[trigger] occurs_at(text, needle, i)
}

/// `needle` occurs in `text` at position `i`.
pub open spec fn occurs_at(text: Seq<char>, needle: Seq<char>, i: int) -> bool {
    0 <= i <= text.len() - needle.len() && text.subrange(i, i + needle.len()) == needle
}

fn matches_at(text: &Vec<char>, needle: &Vec<char>, at: usize) -> (r: bool)
    requires
        at + needle@.len() <= text@.len(),
    ensures
        r == occurs_at(text@, needle@, at as int),
{
    let mut k: usize = 0;
    while k < needle.len()
        invariant
            at + needle.len() <= text.len(),
            k <= needle@.len(),
            forall|j: int| 0 <= j < k ==> text@[at + j] == needle@[j],
        decreases needle@.len() - k,
    {
        if text[at + k] != needle[k] {
            proof {
                assert(text@.subrange(at as int, at + needle@.len())[k as int] != needle@[k as int]);
            }
            return false;
        }
        k += 1;
    }
    proof {
        assert(text@.subrange(at as int, at + needle@.len()) =~= needle@);
    }
    true
}

/// Whether `needle` occurs somewhere in `text`.
pub fn contains(text: &str, needle: &str) -> (r: bool)
    ensures
        r == occurs(text@, needle@),
{
    let t = chars_of(text);
    let n = chars_of(needle);
    if n.len() > t.len() {
        proof {
            assert(forall|i: int| !occurs_at(text@, needle@, i));
        }
        return false;
    }
    let last: usize = t.len() - n.len();
    let mut i: usize = 0;
    while i <= last
        invariant
            t@ == text@,
            n@ == needle@,
            last == t@.len() - n@.len(),
            i <= last + 1,
            forall|j: int| 0 <= j < i ==> !occurs_at(text@, needle@, j),
        decreases last + 1 - i,
    {
        if matches_at(&t, &n, i) {
            return true;
        }
        if i == last {
            proof {
                assert(forall|j: int| !occurs_at(text@, needle@, j));
            }
            return false;
        }
        i += 1;
    }
    false
}

/// Whether `text` begins with `prefix`.
pub fn starts_with(text: &str, prefix: &str) -> (r: bool)
    ensures
        r == prefix@.is_prefix_of(text@),
{
    let t = chars_of(text);
    let p = chars_of(prefix);
    if p.len() > t.len() {
        return false;
    }
    let found = matches_at(&t, &p, 0);
    proof {
        assert(text@.subrange(0, prefix@.len() as int) =~= text@.take(prefix@.len() as int));
    }
    found
}

/// The characters with the Unicode property White_Space.
pub open spec fn is_white(c: char) -> bool {
    ||| '\u{9}' <= c <= '\u{d}'
    ||| c == ' '
    ||| c == '\u{85}'
    ||| c == '\u{a0}'
    ||| c == '\u{1680}'
    ||| '\u{2000}' <= c <= '\u{200a}'
    ||| c == '\u{2028}'
    ||| c == '\u{2029}'
    ||| c == '\u{202f}'
    ||| c == '\u{205f}'
    ||| c == '\u{3000}'
}

/// Whether a character is white space.
pub fn white(c: char) -> (r: bool)
    ensures
        r == is_white(c),
{
    ('\u{9}' <= c && c <= '\u{d}') || c == ' ' || c == '\u{85}' || c == '\u{a0}' || c == '\u{1680}'
        || ('\u{2000}' <= c && c <= '\u{200a}') || c == '\u{2028}' || c == '\u{2029}' || c == '\u{202f}'
        || c == '\u{205f}' || c == '\u{3000}'
}

/// A text without the white space it begins with.
pub open spec fn without_leading(s: Seq<char>) -> Seq<char>
    decreases s.len(),
{
    if s.len() > 0 && is_white(s[0]) {
        without_leading(s.subrange(1, s.len() as int))
    } else {
        s
    }
}

/// A text without the white space it ends with.
pub open spec fn without_trailing(s: Seq<char>) -> Seq<char>
    decreases s.len(),
{
    if s.len() > 0 && is_white(s.last()) {
        without_trailing(s.drop_last())
    } else {
        s
    }
}

/// A text without the white space around it.
pub open spec fn trimmed(s: Seq<char>) -> Seq<char> {
    without_trailing(without_leading(s))
}

/// The text without the white space around it.
pub fn trim(s: &str) -> (r: &str)
    ensures
        r@ == trimmed(s@),
{
    let t = chars_of(s);
    let mut from: usize = 0;
    proof {
        assert(s@.subrange(0, s@.len() as int) =~= s@);
    }
    while from < t.len() && white(t[from])
        invariant
            t@ == s@,
            from <= t@.len(),
            without_leading(s@) == without_leading(s@.subrange(from as int, s@.len() as int)),
        decreases t@.len() - from,
    {
        proof {
            let rest = s@.subrange(from as int, s@.len() as int);
            assert(rest.subrange(1, rest.len() as int) =~= s@.subrange(from + 1, s@.len() as int));
        }
        from += 1;
    }
    let ghost lead = s@.subrange(from as int, s@.len() as int);
    proof {
        assert(without_leading(s@) == lead);
    }
    let mut to: usize = t.len();
    while to > from && white(t[to - 1])
        invariant
            t@ == s@,
            from <= to <= t@.len(),
            lead == s@.subrange(from as int, s@.len() as int),
            without_trailing(lead) == without_trailing(s@.subrange(from as int, to as int)),
        decreases to,
    {
        proof {
            let rest = s@.subrange(from as int, to as int);
            assert(rest.last() == s@[to - 1]);
            assert(rest.drop_last() =~= s@.subrange(from as int, to - 1));
        }
        to -= 1;
    }
    proof {
        let rest = s@.subrange(from as int, to as int);
        assert(rest.len() > 0 ==> rest.last() == s@[to - 1]);
    }
    s.substring_char(from, to)
}

/// A text of nothing but white space trims to nothing, and no other does.
pub proof fn lemma_blank(s: Seq<char>)
    ensures
        trimmed(s).len() == 0 <==> forall|i: int| 0 <= i < s.len() ==> is_white(s[i]),
{
    lemma_leading(s);
    lemma_trailing(without_leading(s));
    let lead = without_leading(s);
    if forall|i: int| 0 <= i < s.len() ==> is_white(s[i]) {
    } else {
        let i = choose|i: int| 0 <= i < s.len() && !is_white(s[i]);
        assert(lead.len() > 0 && !is_white(lead[0]));
    }
}

proof fn lemma_leading(s: Seq<char>)
    ensures
        (forall|i: int| 0 <= i < s.len() ==> is_white(s[i])) ==> without_leading(s).len() == 0,
        (exists|i: int| 0 <= i < s.len() && !is_white(s[i])) ==> without_leading(s).len() > 0
            && !is_white(without_leading(s)[0]),
    decreases s.len(),
{
    if s.len() > 0 && is_white(s[0]) {
        let rest = s.subrange(1, s.len() as int);
        lemma_leading(rest);
        if exists|i: int| 0 <= i < s.len() && !is_white(s[i]) {
            let i = choose|i: int| 0 <= i < s.len() && !is_white(s[i]);
            assert(rest[i - 1] == s[i]);
        }
    }
}

proof fn lemma_trailing(s: Seq<char>)
    ensures
        s.len() > 0 && !is_white(s[0]) ==> without_trailing(s).len() > 0,
        s.len() == 0 ==> without_trailing(s).len() == 0,
    decreases s.len(),
{
    if s.len() > 0 && is_white(s.last()) {
        if !is_white(s[0]) {
            assert(s.drop_last()[0] == s[0]);
        }
        lemma_trailing(s.drop_last());
    }
}

/// The decimal digit of a number below ten.
pub open spec fn digit(d: nat) -> char {
    (48 + d) as char
}

/// A whole number in decimal, without leading zeros.
pub open spec fn decimal_of(n: nat) -> Seq<char>
    decreases n,
{
    if n < 10 {
        seq![digit(n)]
    } else {
        decimal_of(n / 10).push(digit(n % 10))
    }
}

fn digit_text(d: u64) -> (r: &'static str)
    requires
        d < 10,
    ensures
        r@ == seq![digit(d as nat)],
{
    proof {
        reveal_strlit("0");
        reveal_strlit("1");
        reveal_strlit("2");
        reveal_strlit("3");
        reveal_strlit("4");
        reveal_strlit("5");
        reveal_strlit("6");
        reveal_strlit("7");
        reveal_strlit("8");
        reveal_strlit("9");
    }
    match d {
        0 => "0",
        1 => "1",
        2 => "2",
        3 => "3",
        4 => "4",
        5 => "5",
        6 => "6",
        7 => "7",
        8 => "8",
        _ => "9",
    }
}

/// A whole number in decimal.
pub fn decimal(n: u64) -> (r: String)
    ensures
        r@ == decimal_of(n as nat),
{
    long_decimal(n as u128)
}

/// A whole number of up to 128 bits in decimal.
pub fn long_decimal(n: u128) -> (r: String)
    ensures
        r@ == decimal_of(n as nat),
    decreases n,
{
    let last: u64 = (n % 10) as u64;
    if n < 10 {
        digit_text(last).to_owned()
    } else {
        let r = cat(long_decimal(n / 10).as_str(), digit_text(last));
        proof {
            assert(r@ =~= decimal_of((n / 10) as nat).push(digit((n % 10) as nat)));
        }
        r
    }
}

/// The decimal digits of a number, the highest first; zero has none.
pub open spec fn digits_of(n: nat) -> Seq<nat>
    decreases n,
{
    if n == 0 {
        Seq::empty()
    } else {
        digits_of(n / 10).push(n % 10)
    }
}

spec fn plain_digits(v: Seq<u64>) -> Seq<nat> {
    v.map_values(|d: u64| d as nat)
}

proof fn lemma_digits_are_decimal(n: nat)
    requires
        n > 0,
    ensures
        digits_of(n).map_values(|d: nat| digit(d)) == decimal_of(n),
        forall|i: int| 0 <= i < digits_of(n).len() ==> #[trigger] digits_of(n)[i] < 10,
    decreases n,
{
    if n >= 10 {
        lemma_digits_are_decimal(n / 10);
        assert(digits_of(n).map_values(|d: nat| digit(d)) =~= digits_of(n / 10).map_values(
            |d: nat| digit(d),
        ).push(digit(n % 10)));
    } else {
        assert(digits_of(n / 10) =~= Seq::empty());
        assert(digits_of(n).map_values(|d: nat| digit(d)) =~= seq![digit(n)]);
    }
}

fn digits(n: u64) -> (r: Vec<u64>)
    ensures
        plain_digits(r@) == digits_of(n as nat),
    decreases n,
{
    if n == 0 {
        let r: Vec<u64> = Vec::new();
        proof {
            assert(plain_digits(r@) =~= Seq::empty());
        }
        r
    } else {
        let mut r = digits(n / 10);
        let ghost before = r@;
        r.push(n % 10);
        proof {
            assert(plain_digits(r@) =~= plain_digits(before).push((n % 10) as nat));
        }
        r
    }
}

/// The digits of twice a number and a carry, given the digits of the number.
fn doubled(v: &Vec<u64>, len: usize, carry: u64, Ghost(n): Ghost<nat>) -> (r: Vec<u64>)
    requires
        len <= v@.len(),
        carry <= 1,
        plain_digits(v@.take(len as int)) == digits_of(n),
    ensures
        plain_digits(r@) == digits_of(2 * n + carry as nat),
    decreases len,
{
    let ghost shown = plain_digits(v@.take(len as int));
    if len == 0 {
        proof {
            assert(digits_of(n).len() == 0);
            assert(n == 0);
            assert(digits_of(0) =~= Seq::empty());
            assert(carry == 1 ==> digits_of(1) =~= seq![1nat]);
        }
        let mut r: Vec<u64> = Vec::new();
        if carry > 0 {
            r.push(1);
        }
        proof {
            assert(plain_digits(r@) =~= digits_of(carry as nat));
        }
        r
    } else {
        let d = v[len - 1];
        proof {
            assert(shown.last() == d as nat);
            assert(n > 0);
            assert(digits_of(n).last() == n % 10);
            assert(digits_of(n).drop_last() =~= digits_of(n / 10));
            assert(plain_digits(v@.take(len - 1)) =~= shown.drop_last());
        }
        let t: u64 = 2 * d + carry;
        let mut r = doubled(v, len - 1, t / 10, Ghost(n / 10));
        let ghost before = r@;
        r.push(t % 10);
        proof {
            let m = 2 * n + carry as nat;
            assert(n == 10 * (n / 10) + d);
            assert(m / 10 == 2 * (n / 10) + (t / 10) as nat && m % 10 == (t % 10) as nat);
            assert(plain_digits(r@) =~= plain_digits(before).push((t % 10) as nat));
        }
        r
    }
}

/// A whole number in decimal that is given as `n` times two to the power of `shift`.
pub fn shifted_decimal(n: u64, shift: u64) -> (r: String)
    requires
        n > 0,
    ensures
        r@ == decimal_of(n as nat * pow2(shift as nat)),
{
    let mut v = digits(n);
    let mut i: u64 = 0;
    let ghost mut m: nat = n as nat;
    proof {
        lemma2_to64();
    }
    while i < shift
        invariant
            i <= shift,
            n > 0,
            m == n as nat * pow2(i as nat),
            plain_digits(v@) == digits_of(m),
        decreases shift - i,
    {
        proof {
            assert(v@.take(v@.len() as int) =~= v@);
            lemma_pow2_unfold((i + 1) as nat);
            assert(2 * m == n as nat * pow2((i + 1) as nat)) by (nonlinear_arith)
                requires
                    m == n as nat * pow2(i as nat),
                    pow2((i + 1) as nat) == 2 * pow2(i as nat),
            ;
        }
        v = doubled(&v, v.len(), 0, Ghost(m));
        proof {
            m = 2 * m;
        }
        i += 1;
    }
    proof {
        lemma_pow2_pos(shift as nat);
        assert(m > 0) by (nonlinear_arith)
            requires
                m == n as nat * pow2(shift as nat),
                n > 0,
                pow2(shift as nat) > 0,
        ;
        lemma_digits_are_decimal(m);
    }
    let ghost goal = digits_of(m).map_values(|d: nat| digit(d));
    let mut out = String::new();
    let mut k: usize = 0;
    while k < v.len()
        invariant
            k <= v@.len(),
            plain_digits(v@) == digits_of(m),
            goal == digits_of(m).map_values(|d: nat| digit(d)),
            forall|j: int| 0 <= j < digits_of(m).len() ==> #[trigger] digits_of(m)[j] < 10,
            out@ == goal.take(k as int),
        decreases v@.len() - k,
    {
        proof {
            assert(plain_digits(v@)[k as int] == v@[k as int] as nat);
        }
        out.append(digit_text(v[k]));
        proof {
            assert(goal.take(k + 1) =~= goal.take(k as int) + seq![digit(v@[k as int] as nat)]);
        }
        k += 1;
    }
    proof {
        assert(goal.take(goal.len() as int) =~= goal);
    }
    out
}

/// A whole number in octal, padded with zeros to four digits.
pub open spec fn octal4_of(n: nat) -> Seq<char>
    recommends
        n < 4096,
{
    seq![digit(n / 512 % 8), digit(n / 64 % 8), digit(n / 8 % 8), digit(n % 8)]
}

/// A file mode in octal, four digits.
pub fn octal4(n: u32) -> (r: String)
    requires
        n < 4096,
    ensures
        r@ == octal4_of(n as nat),
{
    let m: u64 = n as u64;
    let r = cat4(digit_text(m / 512 % 8), digit_text(m / 64 % 8), digit_text(m / 8 % 8), digit_text(m % 8));
    proof {
        assert(r@ =~= octal4_of(n as nat));
    }
    r
}

/// The number that a run of decimal digits stands for.
pub open spec fn digits_value(s: Seq<char>) -> nat
    decreases s.len(),
{
    if s.len() == 0 {
        0
    } else {
        10 * digits_value(s.drop_last()) + (s.last() as nat - 48) as nat
    }
}

pub open spec fn all_digits(s: Seq<char>) -> bool {
    forall|i: int| 0 <= i < s.len() ==> '0' <= #[trigger] s[i] <= '9'
}

/// What a text says as a whole number below 2^64: an optional `+`, then at least one digit
/// and nothing else.
pub open spec fn whole_of(s: Seq<char>) -> Option<u64> {
    let body = if s.len() > 0 && s[0] == '+' {
        s.subrange(1, s.len() as int)
    } else {
        s
    };
    if body.len() > 0 && all_digits(body) && digits_value(body) <= u64::MAX {
        Some(digits_value(body) as u64)
    } else {
        None
    }
}

proof fn lemma_digits_grow(s: Seq<char>, k: int)
    requires
        all_digits(s),
        0 <= k <= s.len(),
    ensures
        digits_value(s.take(k)) <= digits_value(s),
    decreases s.len() - k,
{
    if k < s.len() {
        lemma_digits_grow(s, k + 1);
        assert(s.take(k + 1).drop_last() =~= s.take(k));
    } else {
        assert(s.take(k) =~= s);
    }
}

/// Reads a text as a whole number below 2^64.
pub fn parse_whole(s: &str) -> (r: Option<u64>)
    ensures
        r == whole_of(s@),
{
    let t = chars_of(s);
    let from: usize = if t.len() > 0 && t[0] == '+' {
        1
    } else {
        0
    };
    if from == t.len() {
        return None;
    }
    let ghost body = s@.subrange(from as int, s@.len() as int);
    proof {
        assert(from == 0 ==> body =~= s@);
        assert(body.take(0).len() == 0);
    }
    let mut n: u64 = 0;
    let mut i: usize = from;
    while i < t.len()
        invariant
            t@ == s@,
            from <= i <= t@.len(),
            from < t@.len(),
            body == s@.subrange(from as int, s@.len() as int),
            whole_of(s@) == (if all_digits(body) && digits_value(body) <= u64::MAX {
                Some(digits_value(body) as u64)
            } else {
                None
            }),
            all_digits(body.take(i - from)),
            n == digits_value(body.take(i - from)),
        decreases t@.len() - i,
    {
        let c = t[i];
        proof {
            assert(body[i - from] == c);
        }
        if !('0' <= c && c <= '9') {
            return None;
        }
        let d: u64 = (c as u32 - 48) as u64;
        proof {
            assert(body.take(i + 1 - from).drop_last() =~= body.take(i - from));
            assert(body.take(i + 1 - from).last() == c);
            assert(digits_value(body.take(i + 1 - from)) == 10 * n + d);
            if all_digits(body) {
                lemma_digits_grow(body, i + 1 - from);
            }
        }
        if n > 1844674407370955161 || (n == 1844674407370955161 && d > 5) {
            return None;
        }
        n = 10 * n + d;
        proof {
            assert forall|j: int| 0 <= j < i + 1 - from implies '0' <= #[trigger] body.take(i + 1 - from)[j] <= '9' by {
                if j < i - from {
                    assert(body.take(i - from)[j] == body.take(i + 1 - from)[j]);
                }
            }
        }
        i += 1;
    }
    proof {
        assert(body.take(t@.len() - from) =~= body);
    }
    Some(n)
}

/// The texts of a list, in order.
pub open spec fn views(v: Seq<String>) -> Seq<Seq<char>> {
    v.map_values(|s: String| s@)
}

/// What stands between the commas of a text, in order. A text without a comma is one piece.
pub open spec fn pieces(s: Seq<char>) -> Seq<Seq<char>>
    decreases s.len(),
{
    if s.len() == 0 {
        seq![Seq::empty()]
    } else {
        let before = pieces(s.drop_last());
        if s.last() == ',' {
            before.push(Seq::empty())
        } else {
            before.drop_last().push(before.last().push(s.last()))
        }
    }
}

/// The pieces without the white space around them, leaving out those that then are empty.
pub open spec fn kept(p: Seq<Seq<char>>) -> Seq<Seq<char>>
    decreases p.len(),
{
    if p.len() == 0 {
        Seq::empty()
    } else {
        let before = kept(p.drop_last());
        let piece = trimmed(p.last());
        if piece.len() > 0 {
            before.push(piece)
        } else {
            before
        }
    }
}

/// The items of a comma-separated list, in order: each trimmed, empty ones left out.
pub open spec fn listed(s: Seq<char>) -> Seq<Seq<char>> {
    kept(pieces(s))
}

/// The items of a comma-separated list.
pub fn list_items(raw: &str) -> (r: Vec<String>)
    ensures
        views(r@) == listed(raw@),
{
    let t = chars_of(raw);
    let mut out: Vec<String> = Vec::new();
    let mut start: usize = 0;
    let mut i: usize = 0;
    let ghost mut done: Seq<Seq<char>> = Seq::empty();
    proof {
        assert(raw@.take(0).len() == 0);
        assert(raw@.subrange(0, 0) =~= Seq::<char>::empty());
        assert(done.push(raw@.subrange(0, 0)) =~= seq![Seq::<char>::empty()]);
    }
    while i < t.len()
        invariant
            t@ == raw@,
            start <= i <= t@.len(),
            pieces(raw@.take(i as int)) == done.push(raw@.subrange(start as int, i as int)),
            views(out@) == kept(done),
        decreases t@.len() - i,
    {
        let ghost before = done.push(raw@.subrange(start as int, i as int));
        proof {
            assert(raw@.take(i + 1).drop_last() =~= raw@.take(i as int));
            assert(raw@.take(i + 1).last() == raw@[i as int]);
            assert(before.drop_last() =~= done);
        }
        if t[i] == ',' {
            let piece = trim(raw.substring_char(start, i));
            if !same(piece, "") {
                out.push(piece.to_owned());
            }
            proof {
                reveal_strlit("");
                assert(piece@.len() == 0 <==> piece@ == ""@) by {
                    if piece@.len() == 0 {
                        assert(piece@ =~= ""@);
                    }
                }
                assert(views(out@) =~= kept(before));
                done = before;
                assert(raw@.subrange(i + 1, i + 1) =~= Seq::<char>::empty());
            }
            start = i + 1;
        } else {
            proof {
                assert(raw@.subrange(start as int, i as int).push(raw@[i as int]) =~= raw@.subrange(
                    start as int,
                    i + 1,
                ));
            }
        }
        i += 1;
    }
    let ghost before = done.push(raw@.subrange(start as int, i as int));
    let piece = trim(raw.substring_char(start, t.len()));
    if !same(piece, "") {
        out.push(piece.to_owned());
    }
    proof {
        reveal_strlit("");
        assert(piece@.len() == 0 <==> piece@ == ""@) by {
            if piece@.len() == 0 {
                assert(piece@ =~= ""@);
            }
        }
        assert(raw@.take(t@.len() as int) =~= raw@);
        assert(before.drop_last() =~= done);
        assert(views(out@) =~= kept(before));
    }
    out
}

/// A list as it is written: its items with a comma between them.
pub open spec fn listing(items: Seq<Seq<char>>) -> Seq<char>
    decreases items.len(),
{
    if items.len() == 0 {
        Seq::empty()
    } else if items.len() == 1 {
        items[0]
    } else {
        listing(items.drop_last()).push(',') + items.last()
    }
}

proof fn lemma_pieces_grow(s: Seq<char>, more: Seq<char>)
    requires
        !more.contains(','),
    ensures
        pieces(s).len() > 0,
        pieces(s + more) == pieces(s).drop_last().push(pieces(s).last() + more),
    decreases s.len() + more.len(),
{
    if s.len() > 0 {
        lemma_pieces_grow(s.drop_last(), Seq::empty());
    }
    let p = pieces(s);
    if more.len() == 0 {
        assert(s + more =~= s);
        assert(p.last() + more =~= p.last());
        assert(p.drop_last().push(p.last()) =~= p);
    } else {
        let less = more.drop_last();
        assert forall|i: int| 0 <= i < less.len() implies less[i] != ',' by {
            assert(more.contains(more[i]));
        }
        assert(more.contains(more.last()));
        lemma_pieces_grow(s, less);
        assert((s + more).drop_last() =~= s + less);
        assert((s + more).last() == more.last());
        let before = p.drop_last().push(p.last() + less);
        assert(before.drop_last() =~= p.drop_last());
        assert((p.last() + less).push(more.last()) =~= p.last() + more);
    }
}

proof fn lemma_pieces_of_a_listing(items: Seq<Seq<char>>)
    requires
        items.len() > 0,
        forall|i: int| 0 <= i < items.len() ==> !(#[trigger] items[i]).contains(','),
    ensures
        pieces(listing(items)) == items,
    decreases items.len(),
{
    let last = items.last();
    assert(!items[items.len() - 1].contains(','));
    if items.len() == 1 {
        let none = Seq::<char>::empty();
        lemma_pieces_grow(none, last);
        assert(none + last =~= last);
        assert(pieces(none) =~= seq![none]);
        assert(pieces(last) =~= items);
    } else {
        let rest = items.drop_last();
        assert forall|i: int| 0 <= i < rest.len() implies !(#[trigger] rest[i]).contains(',') by {
            assert(!items[i].contains(','));
        }
        lemma_pieces_of_a_listing(rest);
        let open = listing(rest).push(',');
        assert(open.drop_last() =~= listing(rest));
        assert(pieces(open) == rest.push(Seq::empty()));
        lemma_pieces_grow(open, last);
        assert(rest.push(Seq::<char>::empty()).drop_last() =~= rest);
        assert(Seq::<char>::empty() + last =~= last);
        assert(rest.push(last) =~= items);
    }
}

proof fn lemma_clean_pieces_are_kept(items: Seq<Seq<char>>)
    requires
        forall|i: int| 0 <= i < items.len() ==> (#[trigger] items[i]).len() > 0 && trimmed(items[i]) == items[i],
    ensures
        kept(items) == items,
    decreases items.len(),
{
    if items.len() > 0 {
        let rest = items.drop_last();
        assert forall|i: int| 0 <= i < rest.len() implies (#[trigger] rest[i]).len() > 0 && trimmed(rest[i])
            == rest[i] by {
            assert(items[i].len() > 0);
        }
        lemma_clean_pieces_are_kept(rest);
        assert(items[items.len() - 1].len() > 0);
        assert(rest.push(items.last()) =~= items);
    } else {
        assert(kept(items) =~= items);
    }
}

/// A list that is written with commas between its items and split again gives the items back,
/// as long as none of them holds a comma, is empty or has white space around it.
pub proof fn lemma_a_list_splits_as_it_was_joined(items: Seq<Seq<char>>)
    requires
        items.len() > 0,
        forall|i: int|
            0 <= i < items.len() ==> (#[trigger] items[i]).len() > 0 && trimmed(items[i]) == items[i]
                && !items[i].contains(','),
    ensures
        listed(listing(items)) == items,
{
    lemma_pieces_of_a_listing(items);
    lemma_clean_pieces_are_kept(items);
}

}
