use vstd::prelude::*;
use vstd::string::*;

verus! {

/// The characters of `s`, one per element.
pub fn str_chars(s: &str) -> (v: Vec<char>)
    ensures
        v@ == s@,
{
    let mut v: Vec<char> = Vec::new();
    for c in it: s.chars()
        invariant
            v@ == it.seq().take(it.index() as int),
            it.seq() == s@,
    {
        v.push(c);
    }
    v
}

/// The owned copy of the characters `from..to` of `s`.
pub fn substring(s: &str, from: usize, to: usize) -> (r: String)
    requires
        from <= to <= s@.len(),
    ensures
        r@ == s@.subrange(from as int, to as int),
{
    s.substring_char(from, to).to_owned()
}

/// `a` followed by `b`, as a new string.
pub fn concat_str(a: &str, b: &str) -> (r: String)
    ensures
        r@ == a@ + b@,
{
    let mut r = a.to_owned();
    r.append(b);
    r
}

/// The strings of `list` joined by `sep`, as `[String]::join` does.
pub open spec fn seq_join(list: Seq<Seq<char>>, sep: Seq<char>) -> Seq<char>
    decreases list.len(),
{
    if list.len() == 0 {
        seq![]
    } else if list.len() == 1 {
        list[0]
    } else {
        seq_join(list.drop_last(), sep) + sep + list.last()
    }
}

/// Whether `a` and `b` hold the same characters.
pub fn str_eq(a: &str, b: &str) -> (r: bool)
    ensures
        r == (a@ == b@),
{
    let x = str_chars(a);
    let y = str_chars(b);
    if x.len() != y.len() {
        return false;
    }
    let mut i: usize = 0;
    while i < x.len()
        invariant
            x@ == a@,
            y@ == b@,
            x@.len() == y@.len(),
            0 <= i <= x@.len(),
            forall|j: int| 0 <= j < i ==> x@[j] == y@[j],
        decreases x@.len() - i,
    {
        if x[i] != y[i] {
            return false;
        }
        i = i + 1;
    }
    assert(x@ =~= y@);
    true
}

/// The strings of `list` joined by `sep`, as `[String]::join` does.
pub fn join_strings(list: &Vec<String>, sep: &str) -> (r: String)
    ensures
        r@ == seq_join(list@.map_values(|s: String| s@), sep@),
{
    let ghost items = list@.map_values(|s: String| s@);
    let mut r = String::new();
    let mut i: usize = 0;
    while i < list.len()
        invariant
            0 <= i <= list@.len(),
            items == list@.map_values(|s: String| s@),
            r@ == seq_join(items.take(i as int), sep@),
        decreases list@.len() - i,
    {
        assert(items.take(i + 1).drop_last() =~= items.take(i as int));
        if i > 0 {
            r.append(sep);
        } else {
            assert(items.take(1) =~= seq![items[0]]);
            assert(r@ =~= Seq::<char>::empty());
        }
        r.append(list[i].as_str());
        assert(r@ =~= seq_join(items.take(i + 1), sep@));
        i = i + 1;
    }
    assert(items.take(list@.len() as int) =~= items);
    r
}

/// The decimal digit character for `d < 10`.
pub open spec fn digit_char(d: nat) -> char {
    (48 + d) as char
}

/// Whether `c` is one of the characters `0` to `9`.
pub open spec fn is_digit(c: char) -> bool {
    '0' <= c && c <= '9'
}

/// The value of a decimal digit character.
pub open spec fn digit_value(c: char) -> nat {
    (c as int - 48) as nat
}

/// The decimal representation of `n`, without sign and without leading zeros.
pub open spec fn decimal(n: nat) -> Seq<char>
    decreases n,
{
    if n < 10 {
        seq![digit_char(n)]
    } else {
        decimal(n / 10).push(digit_char(n % 10))
    }
}

/// Every character of `s` is a decimal digit.
pub open spec fn all_digits(s: Seq<char>) -> bool {
    forall|i: int| 0 <= i < s.len() ==> #[trigger] is_digit(s[i])
}

/// The number that the decimal digits `s` spell (leading zeros allowed).
pub open spec fn digits_value(s: Seq<char>) -> nat
    decreases s.len(),
{
    if s.len() == 0 {
        0
    } else {
        digits_value(s.drop_last()) * 10 + digit_value(s.last())
    }
}

/// The digits part of an unsigned decimal literal: an optional leading `+` is dropped.
pub open spec fn unsigned_digits(s: Seq<char>) -> Seq<char> {
    if s.len() > 0 && s[0] == '+' {
        s.drop_first()
    } else {
        s
    }
}

/// What parsing `s` as a `u16` in base ten gives: an optional `+`, then at least
/// one decimal digit, with a value that fits in 16 bits.
pub open spec fn spec_parse_u16(s: Seq<char>) -> Option<u16> {
    let d = unsigned_digits(s);
    if d.len() > 0 && all_digits(d) && digits_value(d) <= 0xffff {
        Some(digits_value(d) as u16)
    } else {
        None
    }
}

pub proof fn lemma_decimal_props(n: nat)
    ensures
        decimal(n).len() >= 1,
        all_digits(decimal(n)),
        digits_value(decimal(n)) == n,
        decimal(n)[0] != '+',
    decreases n,
{
    if n < 10 {
        let s = decimal(n);
        assert(s.drop_last() =~= Seq::<char>::empty());
        assert(digits_value(s.drop_last()) == 0);
    } else {
        lemma_decimal_props(n / 10);
        let p = decimal(n / 10);
        let s = decimal(n);
        assert(s.drop_last() =~= p);
        assert(s[0] == p[0]);
        assert forall|i: int| 0 <= i < s.len() implies #[trigger] is_digit(s[i]) by {
            if i < p.len() {
                assert(s[i] == p[i]);
            }
        }
        assert((n / 10) * 10 + n % 10 == n) by (nonlinear_arith);
    }
}

/// The decimal representation of a port number parses back to it.
pub proof fn lemma_parse_decimal_u16(n: u16)
    ensures
        spec_parse_u16(decimal(n as nat)) == Some(n),
{
    lemma_decimal_props(n as nat);
}

pub proof fn lemma_digits_value_prefix_mono(s: Seq<char>, i: int, j: int)
    requires
        0 <= i <= j <= s.len(),
    ensures
        digits_value(s.take(i)) <= digits_value(s.take(j)),
    decreases j - i,
{
    if i < j {
        lemma_digits_value_prefix_mono(s, i, j - 1);
        assert(s.take(j).drop_last() =~= s.take(j - 1));
        let v = digits_value(s.take(j - 1));
        assert(v <= v * 10) by (nonlinear_arith);
    }
}

/// Parses the characters `cs[from..to]` as a `u16`, as `str::parse::<u16>` does.
pub fn parse_u16_chars(cs: &Vec<char>, from: usize, to: usize) -> (r: Option<u16>)
    requires
        from <= to <= cs@.len(),
    ensures
        r == spec_parse_u16(cs@.subrange(from as int, to as int)),
{
    let ghost s = cs@.subrange(from as int, to as int);
    let mut start = from;
    if from < to && cs[from] == '+' {
        start = from + 1;
    }
    let ghost d = cs@.subrange(start as int, to as int);
    assert(d =~= unsigned_digits(s));
    if start == to {
        return None;
    }
    let mut value: u32 = 0;
    let mut i = start;
    while i < to
        invariant
            from <= start <= i <= to <= cs@.len(),
            d == cs@.subrange(start as int, to as int),
            d == unsigned_digits(s),
            s == cs@.subrange(from as int, to as int),
            start < to,
            value as nat == digits_value(d.take(i - start)),
            value <= 0xffff,
            forall|k: int| 0 <= k < i - start ==> #[trigger] is_digit(d[k]),
        decreases to - i,
    {
        let c = cs[i];
        assert(d[i - start] == c);
        if !('0' <= c && c <= '9') {
            assert(!is_digit(d[i - start]));
            return None;
        }
        let dv = (c as u32) - 48;
        assert(d.take(i - start + 1).drop_last() =~= d.take(i - start));
        assert(d.take(i - start + 1).last() == c);
        let next = value * 10 + dv;
        if next > 0xffff {
            proof {
                if all_digits(d) {
                    lemma_digits_value_prefix_mono(d, i - start + 1, d.len() as int);
                    assert(d.take(d.len() as int) =~= d);
                }
            }
            return None;
        }
        value = next;
        i = i + 1;
    }
    assert(d.take(d.len() as int) =~= d);
    assert(all_digits(d));
    Some(value as u16)
}

/// The decimal text of a `usize`, as its `Display` impl writes it.
pub fn usize_text(n: usize) -> (r: String)
    ensures
        r@ == decimal(n as nat),
    decreases n,
{
    let digits = "0123456789";
    proof {
        reveal_strlit("0123456789");
    }
    let d = n % 10;
    let last = digits.substring_ascii(d, d + 1);
    assert(last@ =~= seq![digit_char(d as nat)]);
    if n < 10 {
        last.to_owned()
    } else {
        let mut r = usize_text(n / 10);
        r.append(last);
        assert(r@ =~= decimal((n / 10) as nat).push(digit_char((n % 10) as nat)));
        r
    }
}

/// The decimal text of a `u16`, as its `Display` impl writes it.
pub fn u16_text(n: u16) -> (r: String)
    ensures
        r@ == decimal(n as nat),
{
    usize_text(n as usize)
}

/// The text of a byte slice as its `Debug` impl writes it: the bytes in decimal,
/// separated by `, `, in brackets.
pub open spec fn bytes_debug(b: Seq<u8>) -> Seq<char> {
    seq!['['] + seq_join(b.map_values(|x: u8| decimal(x as nat)), seq![',', ' ']) + seq![']']
}

/// The text of `b` as its `Debug` impl writes it.
pub fn bytes_debug_text(b: &[u8]) -> (r: String)
    ensures
        r@ == bytes_debug(b@),
{
    proof {
        reveal_strlit("[");
        reveal_strlit("]");
        reveal_strlit(", ");
    }
    let ghost items = b@.map_values(|x: u8| decimal(x as nat));
    let mut body = String::new();
    let mut i: usize = 0;
    while i < b.len()
        invariant
            0 <= i <= b@.len(),
            items == b@.map_values(|x: u8| decimal(x as nat)),
            body@ == seq_join(items.take(i as int), seq![',', ' ']),
            ", "@ == seq![',', ' '],
        decreases b@.len() - i,
    {
        let t = usize_text(b[i] as usize);
        assert(items.take(i + 1).drop_last() =~= items.take(i as int));
        if i > 0 {
            body.append(", ");
        } else {
            assert(items.take(1) =~= seq![items[0]]);
            assert(body@ =~= Seq::<char>::empty());
        }
        body.append(t.as_str());
        assert(t@ == items.take(i + 1).last());
        assert(body@ =~= seq_join(items.take(i + 1), seq![',', ' ']));
        i = i + 1;
    }
    assert(items.take(b@.len() as int) =~= items);
    let mut r = "[".to_owned();
    r.append(body.as_str());
    r.append("]");
    r
}

} // verus!
