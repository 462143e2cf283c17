use vstd::prelude::*;

verus! {

/// The characters of an optional string.
pub open spec fn opt_chars(s: Option<String>) -> Option<Seq<char>> {
    match s {
        Some(v) => Some(v@),
        None => None,
    }
}

/// The characters of `s`, in order.
pub fn chars_of(s: &str) -> (r: Vec<char>)
    ensures
        r@ == s@,
{
    let mut r: Vec<char> = Vec::new();
    for c in it: s.chars()
        invariant
            r@ == it.seq().take(it.index() as int),
            it.seq() == s@,
    {
        r.push(c);
    }
    r
}

/// `p` occurs in `s` starting at position `i`.
pub open spec fn occurs_at(s: Seq<char>, p: Seq<char>, i: int) -> bool {
    0 <= i && i + p.len() <= s.len() && s.subrange(i, i + p.len()) == p
}

/// `p` occurs somewhere in `s` (the empty pattern occurs everywhere).
pub open spec fn contains_seq(s: Seq<char>, p: Seq<char>) -> bool {
    exists|i: int| occurs_at(s, p, i)
}

/// Whether `p` matches `s` at position `i`, checked character by character.
fn matches_at(s: &Vec<char>, p: &Vec<char>, i: usize) -> (r: bool)
    requires
        i + p.len() <= s.len(),
    ensures
        r == occurs_at(s@, p@, i as int),
{
    let mut j: usize = 0;
    while j < p.len()
        invariant
            i + p.len() <= s.len(),
            j <= p.len(),
            forall|k: int| 0 <= k < j ==> s@[i + k] == p@[k],
        decreases p.len() - j,
    {
        if s[i + j] != p[j] {
            assert(s@.subrange(i as int, i + p.len())[j as int] != p@[j as int]);
            return false;
        }
        j = j + 1;
    }
    assert(s@.subrange(i as int, i + p.len()) =~= p@);
    true
}

/// Whether the pattern `p` occurs in `s`.
pub fn contains(s: &Vec<char>, p: &Vec<char>) -> (r: bool)
    ensures
        r == contains_seq(s@, p@),
{
    if p.len() > s.len() {
        return false;
    }
    let last: usize = s.len() - p.len();
    let mut i: usize = 0;
    while i <= last
        invariant
            last == s.len() - p.len(),
            p.len() <= s.len(),
            i <= last,
            forall|k: int| 0 <= k < i ==> !occurs_at(s@, p@, k),
        ensures
            forall|k: int| 0 <= k <= last ==> !occurs_at(s@, p@, k),
        decreases last - i,
    {
        if matches_at(s, p, i) {
            return true;
        }
        if i == last {
            break;
        }
        i = i + 1;
    }
    false
}

/// The position of the last occurrence of `c` in `s`, if any.
pub open spec fn last_index_of(s: Seq<char>, c: char) -> Option<int>
    decreases s.len(),
{
    if s.len() == 0 {
        None
    } else if s.last() == c {
        Some(s.len() - 1)
    } else {
        last_index_of(s.drop_last(), c)
    }
}

/// Finds the last occurrence of `c` in `s`.
pub fn rfind_char(s: &Vec<char>, c: char) -> (r: Option<usize>)
    ensures
        r is None ==> last_index_of(s@, c) is None,
        r matches Some(p) ==> last_index_of(s@, c) == Some(p as int) && p < s.len() && s@[p as int]
            == c,
{
    let mut n: usize = s.len();
    assert(s@.take(n as int) =~= s@);
    while n > 0
        invariant
            n <= s.len(),
            last_index_of(s@, c) == last_index_of(s@.take(n as int), c),
        decreases n,
    {
        assert(s@.take(n as int).drop_last() =~= s@.take(n - 1));
        if s[n - 1] == c {
            return Some(n - 1);
        }
        n = n - 1;
    }
    None
}

/// The character of the decimal digit `d`.
pub open spec fn digit_char(d: int) -> char {
    if d == 0 {
        '0'
    } else if d == 1 {
        '1'
    } else if d == 2 {
        '2'
    } else if d == 3 {
        '3'
    } else if d == 4 {
        '4'
    } else if d == 5 {
        '5'
    } else if d == 6 {
        '6'
    } else if d == 7 {
        '7'
    } else if d == 8 {
        '8'
    } else {
        '9'
    }
}

/// The decimal notation of `n`, without leading zeros.
pub open spec fn nat_decimal(n: nat) -> Seq<char>
    decreases n,
{
    if n < 10 {
        seq![digit_char(n as int)]
    } else {
        nat_decimal(n / 10).push(digit_char((n % 10) as int))
    }
}

/// The decimal notation of `i`, with a leading '-' when it is negative.
pub open spec fn int_decimal(i: int) -> Seq<char> {
    if i < 0 {
        seq!['-'] + nat_decimal((-i) as nat)
    } else {
        nat_decimal(i as nat)
    }
}

/// The one-character text of the digit `d`.
fn digit_str(d: u64) -> (r: &'static str)
    requires
        d < 10,
    ensures
        r@ == seq![digit_char(d as int)],
{
    if d == 0 {
        proof { reveal_strlit("0"); }
        "0"
    } else if d == 1 {
        proof { reveal_strlit("1"); }
        "1"
    } else if d == 2 {
        proof { reveal_strlit("2"); }
        "2"
    } else if d == 3 {
        proof { reveal_strlit("3"); }
        "3"
    } else if d == 4 {
        proof { reveal_strlit("4"); }
        "4"
    } else if d == 5 {
        proof { reveal_strlit("5"); }
        "5"
    } else if d == 6 {
        proof { reveal_strlit("6"); }
        "6"
    } else if d == 7 {
        proof { reveal_strlit("7"); }
        "7"
    } else if d == 8 {
        proof { reveal_strlit("8"); }
        "8"
    } else {
        proof { reveal_strlit("9"); }
        "9"
    }
}

/// Appends the decimal notation of `n` to `out`.
pub fn push_unsigned_decimal(out: &mut String, n: u64)
    ensures
        final(out)@ == old(out)@ + nat_decimal(n as nat),
    decreases n,
{
    if n >= 10 {
        push_unsigned_decimal(out, n / 10);
    }
    out.append(digit_str(n % 10));
    proof {
        if n >= 10 {
            assert(nat_decimal(n as nat) == nat_decimal((n / 10) as nat).push(digit_char((n % 10) as int)));
        }
    }
}

/// Appends the decimal notation of `i` to `out`, as `i64`'s `Display` writes it.
pub fn push_signed_decimal(out: &mut String, i: i64)
    ensures
        final(out)@ == old(out)@ + int_decimal(i as int),
{
    if i < 0 {
        proof { reveal_strlit("-"); }
        out.append("-");
        let magnitude: u64 = (0i128 - (i as i128)) as u64;
        push_unsigned_decimal(out, magnitude);
    } else {
        push_unsigned_decimal(out, i as u64);
    }
}

/// `c` is one of the ASCII decimal digits.
pub open spec fn is_decimal_digit(c: char) -> bool {
    '0' <= c && c <= '9'
}

/// The last occurrence of `c` is a position of `s` that holds `c`, and no later
/// position does.
pub proof fn lemma_last_index_of(s: Seq<char>, c: char)
    ensures
        last_index_of(s, c) matches Some(p) ==> 0 <= p < s.len() && s[p] == c && forall|q: int|
            p < q < s.len() ==> s[q] != c,
        last_index_of(s, c) is None ==> forall|q: int| 0 <= q < s.len() ==> s[q] != c,
    decreases s.len(),
{
    if s.len() > 0 && s.last() != c {
        lemma_last_index_of(s.drop_last(), c);
        assert forall|q: int| 0 <= q < s.len() - 1 implies s.drop_last()[q] == s[q] by {}
    }
}

/// `s` is a year: exactly four decimal digits.
pub open spec fn is_year(s: Seq<char>) -> bool {
    s.len() == 4 && forall|i: int| 0 <= i < 4 ==> is_decimal_digit(#[trigger] s[i])
}

/// Whether the characters of `s` from position `from` on are a year.
pub fn is_year_at(s: &Vec<char>, from: usize) -> (r: bool)
    requires
        from <= s.len(),
    ensures
        r == is_year(s@.subrange(from as int, s@.len() as int)),
{
    if s.len() - from != 4 {
        return false;
    }
    let mut k: usize = 0;
    while k < 4
        invariant
            from + 4 == s.len(),
            k <= 4,
            forall|i: int| 0 <= i < k ==> is_decimal_digit(#[trigger] s@[from + i]),
        decreases 4 - k,
    {
        let c = s[from + k];
        if !('0' <= c && c <= '9') {
            assert(s@.subrange(from as int, s@.len() as int)[k as int] == c);
            return false;
        }
        k = k + 1;
    }
    assert forall|i: int| 0 <= i < 4 implies is_decimal_digit(
        #[trigger] s@.subrange(from as int, s@.len() as int)[i],
    ) by {
        assert(s@.subrange(from as int, s@.len() as int)[i] == s@[from + i]);
    }
    true
}

/// The value of a decimal digit character.
pub open spec fn digit_value(c: char) -> int {
    c as int - '0' as int
}

/// The number that a run of decimal digits denotes, the first digit the most
/// significant.
pub open spec fn decimal_value(s: Seq<char>) -> int
    decreases s.len(),
{
    if s.len() == 0 {
        0
    } else {
        decimal_value(s.drop_last()) * 10 + digit_value(s.last())
    }
}

/// The decimal notation of a number reads back as that number: it is a non-empty
/// run of decimal digits, without a leading zero unless the number is zero, whose
/// value is the number; a negative number is written as a minus sign followed by
/// the digits of its magnitude.
pub proof fn lemma_decimal_reads_back(i: int)
    ensures
        i >= 0 ==> decimal_value(int_decimal(i)) == i,
        i < 0 ==> int_decimal(i)[0] == '-' && decimal_value(int_decimal(i).drop_first()) == -i,
        i >= 0 ==> int_decimal(i).len() > 0 && forall|k: int|
            0 <= k < int_decimal(i).len() ==> is_decimal_digit(#[trigger] int_decimal(i)[k]),
        i > 0 ==> int_decimal(i)[0] != '0',
        i == 0 ==> int_decimal(i) == seq!['0'],
{
    if i < 0 {
        lemma_nat_decimal_reads_back((-i) as nat);
        assert((seq!['-'] + nat_decimal((-i) as nat)).drop_first() =~= nat_decimal((-i) as nat));
    } else {
        lemma_nat_decimal_reads_back(i as nat);
    }
}

/// `nat_decimal(n)` is a run of decimal digits with value `n` and no leading zero
/// unless `n` is zero.
proof fn lemma_nat_decimal_reads_back(n: nat)
    ensures
        decimal_value(nat_decimal(n)) == n,
        nat_decimal(n).len() > 0,
        forall|k: int| 0 <= k < nat_decimal(n).len() ==> is_decimal_digit(#[trigger] nat_decimal(n)[k]),
        n > 0 ==> nat_decimal(n)[0] != '0',
    decreases n,
{
    if n < 10 {
        let d: int = n as int;
        assert(digit_value(digit_char(d)) == d);
        assert(decimal_value(seq![digit_char(d)].drop_last()) == 0) by {
            assert(seq![digit_char(d)].drop_last() =~= Seq::<char>::empty());
        }
    } else {
        let q: nat = n / 10;
        let d: int = (n % 10) as int;
        lemma_nat_decimal_reads_back(q);
        let s = nat_decimal(n);
        assert(s == nat_decimal(q).push(digit_char(d)));
        assert(s.drop_last() =~= nat_decimal(q));
        assert(digit_value(digit_char(d)) == d);
        assert(n == q * 10 + d);
        assert forall|k: int| 0 <= k < s.len() implies is_decimal_digit(#[trigger] s[k]) by {
            if k < s.len() - 1 {
                assert(s[k] == nat_decimal(q)[k]);
            }
        }
        assert(s[0] == nat_decimal(q)[0]);
    }
}

} // verus!
