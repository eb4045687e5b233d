//! Text: decimal numbers, prefixes, and the pieces that messages are made of.
use vstd::prelude::*;
use vstd::string::*;
use vstd::utf8::{decode_utf8, valid_utf8};

verus! {

/// The decimal digit of a value below 10.
pub open spec fn digit_char(d: int) -> char {
    seq!['0', '1', '2', '3', '4', '5', '6', '7', '8', '9'][d]
}

/// The value of a decimal digit.
pub open spec fn digit_value(c: char) -> Option<int> {
    if c == '0' {
        Some(0)
    } else if c == '1' {
        Some(1)
    } else if c == '2' {
        Some(2)
    } else if c == '3' {
        Some(3)
    } else if c == '4' {
        Some(4)
    } else if c == '5' {
        Some(5)
    } else if c == '6' {
        Some(6)
    } else if c == '7' {
        Some(7)
    } else if c == '8' {
        Some(8)
    } else if c == '9' {
        Some(9)
    } else {
        None
    }
}

/// A number in decimal, without leading zeros.
pub open spec fn decimal_text(n: nat) -> Seq<char>
    decreases n,
{
    if n < 10 {
        seq![digit_char(n as int)]
    } else {
        decimal_text(n / 10).push(digit_char(n as int % 10))
    }
}

/// The value of a sequence of decimal digits; an empty one has the value 0.
pub open spec fn digits_value(s: Seq<char>) -> Option<nat>
    decreases s.len(),
{
    if s.len() == 0 {
        Some(0)
    } else {
        match (digits_value(s.drop_last()), digit_value(s.last())) {
            (Some(high), Some(d)) => Some((10 * high + d) as nat),
            _ => None,
        }
    }
}

/// The digits of a number: what follows a plus sign, or the whole text.
pub open spec fn after_plus(s: Seq<char>) -> Seq<char> {
    if s.len() > 0 && s[0] == '+' {
        s.drop_first()
    } else {
        s
    }
}

/// The 64-bit number that text gives in decimal: at least one digit, a plus
/// sign in front or none, and a value that fits.
pub open spec fn u64_value(s: Seq<char>) -> Option<u64> {
    match digits_value(after_plus(s)) {
        Some(n) => if after_plus(s).len() > 0 && n <= u64::MAX {
            Some(n as u64)
        } else {
            None
        },
        None => None,
    }
}

/// `s` starts with `p`.
pub open spec fn begins_with(s: Seq<char>, p: Seq<char>) -> bool {
    p.len() <= s.len() && s.subrange(0, p.len() as int) == p
}

/// `s` with a backslash in front of each double quote.
pub open spec fn quotes_escaped(s: Seq<char>) -> Seq<char>
    decreases s.len(),
{
    if s.len() == 0 {
        Seq::empty()
    } else {
        quotes_escaped(s.drop_last()) + if s.last() == '"' {
            seq!['\\', '"']
        } else {
            seq![s.last()]
        }
    }
}

proof fn lemma_digit(d: int)
    requires
        0 <= d < 10,
    ensures
        digit_value(digit_char(d)) == Some(d),
        digit_char(d) != '+',
{
}

/// A number written in decimal reads back as itself.
pub proof fn lemma_decimal_roundtrip(n: u64)
    ensures
        u64_value(decimal_text(n as nat)) == Some(n),
{
    lemma_decimal_digits(n as nat);
    let s = decimal_text(n as nat);
    lemma_decimal_first(n as nat);
    assert(after_plus(s) == s);
}

proof fn lemma_decimal_digits(n: nat)
    ensures
        digits_value(decimal_text(n)) == Some(n),
        decimal_text(n).len() > 0,
    decreases n,
{
    let s = decimal_text(n);
    lemma_digit(n as int % 10);
    if n >= 10 {
        lemma_decimal_digits(n / 10);
        assert(s.drop_last() =~= decimal_text(n / 10));
    } else {
        assert(s.drop_last() =~= Seq::<char>::empty());
        assert(digits_value(s.drop_last()) == Some(0nat));
    }
}

proof fn lemma_decimal_first(n: nat)
    ensures
        decimal_text(n)[0] != '+',
        decimal_text(n).len() > 0,
    decreases n,
{
    lemma_digit(n as int % 10);
    if n >= 10 {
        lemma_decimal_first(n / 10);
    }
}

/// `String::push` of std appends one character.
pub assume_specification[ String::push ](s: &mut String, c: char)
    ensures
        final(s)@ == old(s)@.push(c),
;

/// The text that bytes are read as, whatever they are: sequences that are no
/// UTF-8 are replaced.
pub uninterp spec fn lossy_text(bytes: Seq<u8>) -> Seq<char>;

/// Calls `String::from_utf8_lossy` of std, whose result depends on the bytes
/// alone. Bytes that are UTF-8 give the text that they encode; how others are
/// replaced is not stated.
#[verifier::external_body]
pub(crate) fn read_lossy(bytes: &[u8]) -> (s: String)
    ensures
        s@ == lossy_text(bytes@),
        valid_utf8(bytes@) ==> s@ == decode_utf8(bytes@),
{
    String::from_utf8_lossy(bytes).into_owned()
}

/// The characters of a text.
pub fn chars_of(s: &str) -> (v: Vec<char>)
    ensures
        v@ == s@,
{
    let mut v: Vec<char> = Vec::new();
    for c in it: s.chars()
        invariant
            it.seq() == s@,
            v@ == s@.subrange(0, it.index() as int),
    {
        v.push(c);
        assert(v@ =~= s@.subrange(0, it.index() as int + 1));
    }
    assert(s@.subrange(0, s@.len() as int) =~= s@);
    v
}

/// The text that characters `from` to `to` (exclusive) make up.
pub fn text_of(v: &Vec<char>, from: usize, to: usize) -> (s: String)
    requires
        from <= to <= v@.len(),
    ensures
        s@ == v@.subrange(from as int, to as int),
{
    let mut s = String::new();
    let mut i: usize = from;
    assert(s@ =~= v@.subrange(from as int, from as int));
    while i < to
        invariant
            from <= i <= to <= v@.len(),
            s@ == v@.subrange(from as int, i as int),
        decreases to - i,
    {
        s.push(v[i]);
        i += 1;
        assert(s@ =~= v@.subrange(from as int, i as int));
    }
    s
}

fn digit(d: u64) -> (c: char)
    requires
        d < 10,
    ensures
        c == digit_char(d as int),
{
    if d == 0 {
        '0'
    } else if d == 1 {
        '1'
    } else if d == 2 {
        '2'
    } else if d == 3 {
        '3'
    } else if d == 4 {
        '4'
    } else if d == 5 {
        '5'
    } else if d == 6 {
        '6'
    } else if d == 7 {
        '7'
    } else if d == 8 {
        '8'
    } else {
        '9'
    }
}

/// A number in decimal.
pub fn decimal(n: u64) -> (s: String)
    ensures
        s@ == decimal_text(n as nat),
    decreases n,
{
    if n < 10 {
        let mut s = String::new();
        s.push(digit(n));
        assert(s@ =~= decimal_text(n as nat));
        s
    } else {
        let mut s = decimal(n / 10);
        s.push(digit(n % 10));
        s
    }
}

fn value_of_digit(c: char) -> (d: Option<u64>)
    ensures
        match d {
            Some(x) => digit_value(c) == Some(x as int) && x < 10,
            None => digit_value(c) is None,
        },
{
    if c == '0' {
        Some(0)
    } else if c == '1' {
        Some(1)
    } else if c == '2' {
        Some(2)
    } else if c == '3' {
        Some(3)
    } else if c == '4' {
        Some(4)
    } else if c == '5' {
        Some(5)
    } else if c == '6' {
        Some(6)
    } else if c == '7' {
        Some(7)
    } else if c == '8' {
        Some(8)
    } else if c == '9' {
        Some(9)
    } else {
        None
    }
}

proof fn lemma_digits_prefix(s: Seq<char>, i: int)
    requires
        0 <= i <= s.len(),
    ensures
        digits_value(s) is Some ==> digits_value(s.subrange(0, i)) is Some && digits_value(
            s.subrange(0, i),
        )->Some_0 <= digits_value(s)->Some_0,
    decreases s.len(),
{
    if i == s.len() {
        assert(s.subrange(0, i) =~= s);
    } else {
        lemma_digits_prefix(s.drop_last(), i);
        assert(s.drop_last().subrange(0, i) =~= s.subrange(0, i));
    }
}

/// Reads a 64-bit number in decimal, see [`u64_value`].
pub fn parse_u64(text: &str) -> (r: Option<u64>)
    ensures
        r == u64_value(text@),
{
    let v = chars_of(text);
    let mut i: usize = 0;
    if v.len() > 0 && v[0] == '+' {
        i = 1;
    }
    let ghost d = after_plus(text@);
    let ghost start = i as int;
    assert(d =~= text@.subrange(start, text@.len() as int));
    if i == v.len() {
        return None;
    }
    let mut n: u64 = 0;
    assert(d.subrange(0, 0) =~= Seq::<char>::empty());
    while i < v.len()
        invariant
            0 <= start <= i <= v@.len(),
            v@ == text@,
            d == after_plus(text@),
            d == text@.subrange(start, text@.len() as int),
            d.len() > 0,
            digits_value(d.subrange(0, i - start)) == Some(n as nat),
        decreases v.len() - i,
    {
        proof {
            let longer = d.subrange(0, i - start + 1);
            assert(longer.drop_last() =~= d.subrange(0, i - start));
            assert(longer.last() == v@[i as int]);
            lemma_digits_prefix(d, i - start + 1);
        }
        match value_of_digit(v[i]) {
            None => {
                return None;
            },
            Some(x) => {
                if n > u64::MAX / 10 {
                    return None;
                }
                let high: u64 = n * 10;
                if high > u64::MAX - x {
                    return None;
                }
                n = high + x;
            },
        }
        i += 1;
    }
    assert(d.subrange(0, d.len() as int) =~= d);
    Some(n)
}

/// Whether `s` starts with `p`.
pub fn has_prefix(s: &str, p: &str) -> (b: bool)
    ensures
        b == begins_with(s@, p@),
{
    let a = chars_of(s);
    let q = chars_of(p);
    if q.len() > a.len() {
        return false;
    }
    let mut i: usize = 0;
    while i < q.len()
        invariant
            i <= q@.len() <= a@.len(),
            a@ == s@,
            q@ == p@,
            forall|j: int| 0 <= j < i ==> a@[j] == q@[j],
        decreases q.len() - i,
    {
        if a[i] != q[i] {
            assert(s@.subrange(0, p@.len() as int)[i as int] != p@[i as int]);
            return false;
        }
        i += 1;
    }
    assert(s@.subrange(0, p@.len() as int) =~= p@);
    true
}

/// What follows the first `n` characters.
pub fn skip_chars(s: &str, n: usize) -> (r: String)
    requires
        n <= s@.len(),
    ensures
        r@ == s@.subrange(n as int, s@.len() as int),
{
    let v = chars_of(s);
    text_of(&v, n, v.len())
}

/// Whether a text holds a character.
pub fn contains_char(s: &str, c: char) -> (b: bool)
    ensures
        b == s@.contains(c),
{
    let v = chars_of(s);
    let mut i: usize = 0;
    while i < v.len()
        invariant
            i <= v@.len(),
            v@ == s@,
            forall|j: int| 0 <= j < i ==> v@[j] != c,
        decreases v.len() - i,
    {
        if v[i] == c {
            assert(s@[i as int] == c);
            return true;
        }
        i += 1;
    }
    false
}

/// How many characters stand before the first `c`; all of them if there is none.
pub open spec fn before_char(s: Seq<char>, c: char) -> nat
    decreases s.len(),
{
    if s.len() == 0 || s[0] == c {
        0
    } else {
        1 + before_char(s.drop_first(), c)
    }
}

/// Part `n` of a text that `c` divides into parts, counted from 0.
pub open spec fn part(s: Seq<char>, c: char, n: nat) -> Option<Seq<char>>
    decreases n,
{
    let i = before_char(s, c) as int;
    if n == 0 {
        Some(s.subrange(0, i))
    } else if i >= s.len() {
        None
    } else {
        part(s.subrange(i + 1, s.len() as int), c, (n - 1) as nat)
    }
}

proof fn lemma_before_char(s: Seq<char>, c: char, i: int)
    requires
        0 <= i <= s.len(),
        forall|j: int| 0 <= j < i ==> s[j] != c,
        i < s.len() ==> s[i] == c,
    ensures
        before_char(s, c) == i,
    decreases s.len(),
{
    if i > 0 {
        lemma_before_char(s.drop_first(), c, i - 1);
    }
}

/// Part `n` of a text that `c` divides, see [`part`].
pub fn nth_part(s: &str, c: char, n: usize) -> (r: Option<String>)
    ensures
        match r {
            Some(t) => part(s@, c, n as nat) == Some(t@),
            None => part(s@, c, n as nat) is None,
        },
{
    let v = chars_of(s);
    let mut start: usize = 0;
    let mut left: usize = n;
    assert(s@.subrange(0, s@.len() as int) =~= s@);
    loop
        invariant
            v@ == s@,
            start <= v@.len(),
            part(s@, c, n as nat) == part(
                s@.subrange(start as int, s@.len() as int),
                c,
                left as nat,
            ),
        decreases left,
    {
        let ghost rest = s@.subrange(start as int, s@.len() as int);
        let mut i: usize = start;
        while i < v.len() && v[i] != c
            invariant
                v@ == s@,
                start <= i <= v@.len(),
                rest == s@.subrange(start as int, s@.len() as int),
                forall|j: int| 0 <= j < i - start ==> rest[j] != c,
            decreases v.len() - i,
        {
            i += 1;
        }
        proof {
            lemma_before_char(rest, c, i - start);
        }
        if left == 0 {
            assert(rest.subrange(0, i - start) =~= s@.subrange(start as int, i as int));
            return Some(text_of(&v, start, i));
        }
        if i >= v.len() {
            return None;
        }
        assert(rest.subrange(i - start + 1, rest.len() as int) =~= s@.subrange(
            i + 1,
            s@.len() as int,
        ));
        start = i + 1;
        left -= 1;
    }
}

/// Three texts one after the other.
pub fn join3(a: &str, b: &str, c: &str) -> (s: String)
    ensures
        s@ == a@ + b@ + c@,
{
    let mut s = String::from_str(a);
    s.append(b);
    s.append(c);
    s
}

/// Whether two texts are the same.
pub fn same_text(a: &str, b: &str) -> (r: bool)
    ensures
        r == (a@ == b@),
{
    let u = chars_of(a);
    let v = chars_of(b);
    if u.len() != v.len() {
        return false;
    }
    let mut i: usize = 0;
    while i < u.len()
        invariant
            i <= u@.len(),
            u@ == a@,
            v@ == b@,
            u@.len() == v@.len(),
            forall|j: int| 0 <= j < i ==> u@[j] == v@[j],
        decreases u.len() - i,
    {
        if u[i] != v[i] {
            assert(a@[i as int] != b@[i as int]);
            return false;
        }
        i += 1;
    }
    assert(a@ =~= b@);
    true
}

/// Puts a backslash in front of each double quote.
pub fn escape_quotes(s: &str) -> (r: String)
    ensures
        r@ == quotes_escaped(s@),
{
    let v = chars_of(s);
    let mut r = String::new();
    let mut i: usize = 0;
    assert(s@.subrange(0, 0) =~= Seq::<char>::empty());
    assert(r@ =~= quotes_escaped(s@.subrange(0, 0)));
    while i < v.len()
        invariant
            i <= v@.len(),
            v@ == s@,
            r@ == quotes_escaped(s@.subrange(0, i as int)),
        decreases v.len() - i,
    {
        proof {
            let longer = s@.subrange(0, i + 1);
            assert(longer.drop_last() =~= s@.subrange(0, i as int));
            assert(longer.last() == v@[i as int]);
        }
        let ghost before = r@;
        if v[i] == '"' {
            r.push('\\');
        }
        r.push(v[i]);
        proof {
            if v@[i as int] == '"' {
                assert(r@ =~= before + seq!['\\', '"']);
            } else {
                assert(r@ =~= before + seq![v@[i as int]]);
            }
        }
        i += 1;
    }
    assert(s@.subrange(0, s@.len() as int) =~= s@);
    r
}

/// A character divides a text into parts: the first part is what stands before
/// it, and the parts behind it are those of the rest. A text without it is one
/// part.
pub proof fn law_text_is_divided(x: Seq<char>, c: char, rest: Seq<char>, n: nat)
    requires
        forall|i: int| 0 <= i < x.len() ==> x[i] != c,
    ensures
        part(x, c, 0) == Some(x),
        part(x, c, n + 1) is None,
        part(x + seq![c] + rest, c, 0) == Some(x),
        part(x + seq![c] + rest, c, n + 1) == part(rest, c, n),
{
    let t = x + seq![c] + rest;
    lemma_before_char(x, c, x.len() as int);
    lemma_before_char(t, c, x.len() as int);
    assert(x.subrange(0, x.len() as int) =~= x);
    assert(t.subrange(0, x.len() as int) =~= x);
    assert(t.subrange(x.len() as int + 1, t.len() as int) =~= rest);
}

/// Each double quote of a text gets a backslash in front; every other character
/// stays as it is.
pub proof fn law_quotes_get_a_backslash(a: Seq<char>, b: Seq<char>, c: char)
    ensures
        quotes_escaped(a + b) == quotes_escaped(a) + quotes_escaped(b),
        c != '"' ==> quotes_escaped(seq![c]) == seq![c],
        quotes_escaped(seq!['"']) == seq!['\\', '"'],
    decreases b.len(),
{
    if b.len() > 0 {
        law_quotes_get_a_backslash(a, b.drop_last(), c);
        assert((a + b).drop_last() =~= a + b.drop_last());
        assert((a + b).last() == b.last());
    } else {
        assert(a + b =~= a);
    }
    assert(quotes_escaped(a + b) =~= quotes_escaped(a) + quotes_escaped(b));
    reveal_with_fuel(quotes_escaped, 2);
    assert(seq![c].drop_last() =~= Seq::<char>::empty());
    assert(seq![c].last() == c);
    assert(seq!['"'].drop_last() =~= Seq::<char>::empty());
    assert(seq!['"'].last() == '"');
    assert(quotes_escaped(seq!['"']) =~= seq!['\\', '"']);
    if c != '"' {
        assert(quotes_escaped(seq![c]) =~= seq![c]);
    }
}

/// A number is written by its digits, the last one being the remainder by ten.
pub proof fn law_decimal_digits(n: nat)
    ensures
        n < 10 ==> decimal_text(n).len() == 1 && decimal_text(n)[0] as u32 == 48 + n,
        n >= 10 ==> decimal_text(n).drop_last() == decimal_text(n / 10) && decimal_text(
            n,
        ).last() as u32 == 48 + n % 10,
{
    let d = n as int % 10;
    assert(digit_char(d) as u32 == 48 + d);
    if n >= 10 {
        assert(decimal_text(n).drop_last() =~= decimal_text(n / 10));
    }
}

/// A text is a number exactly if it is made of decimal digits, with a plus sign
/// in front or none, and its value fits into 64 bits.
pub proof fn law_number_text(s: Seq<char>)
    ensures
        u64_value(s) is Some ==> s.len() > 0,
        u64_value(s) is Some && s[0] != '+' ==> forall|i: int|
            0 <= i < s.len() ==> 48 <= #[trigger] s[i] as u32 <= 57,
        s.len() > 0 && (forall|i: int| 0 <= i < s.len() ==> 48 <= #[trigger] s[i] as u32 <= 57)
            && s.len() <= 19 ==> u64_value(s) is Some,
{
    lemma_digits_only(after_plus(s));
    if s.len() > 0 && (forall|i: int| 0 <= i < s.len() ==> 48 <= #[trigger] s[i] as u32 <= 57)
        && s.len() <= 19 {
        assert(48 <= s[0] as u32 <= 57);
        assert(after_plus(s) == s);
        lemma_digits_bound(s);
        assert(pow10(19) <= u64::MAX) by {
            reveal_with_fuel(pow10, 20);
        }
        lemma_pow10_grows(s.len(), 19);
    }
}

spec fn pow10(n: nat) -> nat
    decreases n,
{
    if n == 0 {
        1
    } else {
        10 * pow10((n - 1) as nat)
    }
}

proof fn lemma_pow10_grows(m: nat, n: nat)
    requires
        m <= n,
    ensures
        pow10(m) <= pow10(n),
    decreases n,
{
    if m < n {
        lemma_pow10_grows(m, (n - 1) as nat);
    }
}

proof fn lemma_digit_range(c: char)
    ensures
        digit_value(c) is Some <==> 48 <= c as u32 <= 57,
        digit_value(c) matches Some(d) ==> d == c as u32 - 48,
{
}

proof fn lemma_digits_only(s: Seq<char>)
    ensures
        digits_value(s) is Some <==> forall|i: int|
            0 <= i < s.len() ==> 48 <= #[trigger] s[i] as u32 <= 57,
    decreases s.len(),
{
    if s.len() > 0 {
        let front = s.drop_last();
        lemma_digits_only(front);
        lemma_digit_range(s.last());
        assert(s[s.len() - 1] == s.last());
        if forall|i: int| 0 <= i < s.len() ==> 48 <= #[trigger] s[i] as u32 <= 57 {
            assert forall|i: int| 0 <= i < front.len() implies 48 <= #[trigger] front[i] as u32
                <= 57 by {
                assert(front[i] == s[i]);
            }
        }
        if digits_value(s) is Some {
            assert forall|i: int| 0 <= i < s.len() implies 48 <= #[trigger] s[i] as u32 <= 57 by {
                if i < front.len() {
                    assert(front[i] == s[i]);
                }
            }
        }
    }
}

proof fn lemma_digits_bound(s: Seq<char>)
    ensures
        digits_value(s) matches Some(n) ==> n < pow10(s.len()),
    decreases s.len(),
{
    if s.len() > 0 {
        lemma_digits_bound(s.drop_last());
        lemma_digit_range(s.last());
    }
}

} // verus!
