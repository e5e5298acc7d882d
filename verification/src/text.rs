use vstd::prelude::*;
use vstd::string::*;
use vstd::std_specs::iter::IteratorSpec;

verus! {

broadcast use vstd::string::group_string_axioms;

// ---------------------------------------------------------------------------
// Characters of a string
// ---------------------------------------------------------------------------

/// The characters of `s`, in order.
pub fn chars_of(s: &str) -> (v: Vec<char>)
    ensures
        v@ == s@,
{
    let mut v: Vec<char> = Vec::new();
    let mut it = s.chars();
    loop
        invariant
            v@ + it.remaining() == s@,
            it.decrease() is Some,
        decreases it.decrease()->0,
    {
        match it.next() {
            Some(c) => {
                v.push(c);
            },
            None => {
                return v;
            },
        }
    }
}

/// Appends one character to a string (std's `String::push`).
#[verifier::external_body]
pub(crate) fn push_char(s: &mut String, c: char)
    ensures
        final(s)@ == old(s)@.push(c),
{
    s.push(c);
}

/// Appends a string slice to a string.
pub fn push_str(s: &mut String, t: &str)
    ensures
        final(s)@ == old(s)@ + t@,
{
    s.append(t);
}

/// Appends the characters `v[start..end]` to `s`.
pub fn push_chars(s: &mut String, v: &Vec<char>, start: usize, end: usize)
    requires
        start <= end <= v@.len(),
    ensures
        final(s)@ == old(s)@ + v@.subrange(start as int, end as int),
{
    let mut i = start;
    while i < end
        invariant
            start <= i <= end <= v@.len(),
            s@ == old(s)@ + v@.subrange(start as int, i as int),
        decreases end - i,
    {
        push_char(s, v[i]);
        assert(v@.subrange(start as int, i + 1) == v@.subrange(start as int, i as int).push(v@[i as int]));
        i = i + 1;
    }
}

/// A new string holding `v[start..end]`.
pub fn string_of(v: &Vec<char>, start: usize, end: usize) -> (s: String)
    requires
        start <= end <= v@.len(),
    ensures
        s@ == v@.subrange(start as int, end as int),
{
    let mut s = String::new();
    push_chars(&mut s, v, start, end);
    s
}

/// Whether two string slices hold the same characters.
pub fn str_eq(a: &str, b: &str) -> (r: bool)
    ensures
        r == (a@ == b@),
{
    let a_owned = a.to_owned();
    let b_owned = b.to_owned();
    a_owned == b_owned
}

/// Whether `v[start..end]` holds exactly the characters of `t`.
pub fn chars_eq_str(v: &Vec<char>, start: usize, end: usize, t: &str) -> (r: bool)
    requires
        start <= end <= v@.len(),
    ensures
        r == (v@.subrange(start as int, end as int) == t@),
{
    let tv = chars_of(t);
    if end - start != tv.len() {
        return false;
    }
    let mut i: usize = 0;
    while i < tv.len()
        invariant
            start <= end <= v@.len(),
            end - start == tv@.len(),
            tv@ == t@,
            0 <= i <= tv@.len(),
            forall|j: int| 0 <= j < i ==> v@[start + j] == tv@[j],
        decreases tv@.len() - i,
    {
        if v[start + i] != tv[i] {
            return false;
        }
        i = i + 1;
    }
    assert(v@.subrange(start as int, end as int) =~= tv@);
    true
}

// ---------------------------------------------------------------------------
// Prefixes and searching
// ---------------------------------------------------------------------------

/// Whether `prefix` is a prefix of `s`.
pub open spec fn has_prefix(s: Seq<char>, prefix: Seq<char>) -> bool {
    prefix.len() <= s.len() && s.take(prefix.len() as int) == prefix
}

/// Whether `s` begins with the characters of `prefix` (`str::starts_with`).
pub fn starts_with(s: &str, prefix: &str) -> (r: bool)
    ensures
        r == has_prefix(s@, prefix@),
{
    let sv = chars_of(s);
    let pv = chars_of(prefix);
    if pv.len() > sv.len() {
        return false;
    }
    let r = chars_eq_str(&sv, 0, pv.len(), prefix);
    r
}

/// Index of the first `c` in `s`, or `s.len()` where `s` holds no `c`.
pub open spec fn first_index_of(s: Seq<char>, c: char) -> int
    decreases s.len(),
{
    if s.len() == 0 {
        0
    } else if s[0] == c {
        0
    } else {
        1 + first_index_of(s.drop_first(), c)
    }
}

/// Index of the last `c` in `s`, or `-1` where `s` holds no `c`.
pub open spec fn last_index_of(s: Seq<char>, c: char) -> int
    decreases s.len(),
{
    if s.len() == 0 {
        -1
    } else if s.last() == c {
        s.len() - 1
    } else {
        last_index_of(s.drop_last(), c)
    }
}

pub proof fn lemma_first_index_of(s: Seq<char>, c: char, i: int)
    requires
        0 <= i <= s.len(),
        forall|j: int| 0 <= j < i ==> s[j] != c,
        i == s.len() || s[i] == c,
    ensures
        first_index_of(s, c) == i,
    decreases i,
{
    if i > 0 {
        assert(s[0] != c);
        let t = s.drop_first();
        assert forall|j: int| 0 <= j < i - 1 implies t[j] != c by {
            assert(t[j] == s[j + 1]);
        }
        lemma_first_index_of(t, c, i - 1);
    }
}

pub proof fn lemma_last_index_of(s: Seq<char>, c: char, i: int)
    requires
        -1 <= i < s.len(),
        forall|j: int| i < j < s.len() ==> s[j] != c,
        i == -1 || s[i] == c,
    ensures
        last_index_of(s, c) == i,
    decreases s.len(),
{
    if s.len() > 0 && i != s.len() - 1 {
        assert(s.last() != c);
        let t = s.drop_last();
        lemma_last_index_of(t, c, i);
    }
}

/// `str::split_once` on a character: the text before and after the first `c`.
pub open spec fn split_once_spec(s: Seq<char>, c: char) -> Option<(Seq<char>, Seq<char>)> {
    let i = first_index_of(s, c);
    if i < s.len() {
        Some((s.take(i), s.skip(i + 1)))
    } else {
        None
    }
}

/// `str::rsplit_once` on a character: the text before and after the last `c`.
pub open spec fn rsplit_once_spec(s: Seq<char>, c: char) -> Option<(Seq<char>, Seq<char>)> {
    let i = last_index_of(s, c);
    if i >= 0 {
        Some((s.take(i), s.skip(i + 1)))
    } else {
        None
    }
}

/// Position of the first `c` in `v[start..end]`, relative to `start`.
pub fn find_first(v: &Vec<char>, start: usize, end: usize, c: char) -> (r: usize)
    requires
        start <= end <= v@.len(),
    ensures
        r == first_index_of(v@.subrange(start as int, end as int), c),
        r <= end - start,
{
    let ghost s = v@.subrange(start as int, end as int);
    let mut i = start;
    while i < end
        invariant
            start <= i <= end <= v@.len(),
            s == v@.subrange(start as int, end as int),
            forall|j: int| 0 <= j < i - start ==> s[j] != c,
        decreases end - i,
    {
        if v[i] == c {
            proof {
                lemma_first_index_of(s, c, i - start);
            }
            return i - start;
        }
        i = i + 1;
    }
    proof {
        lemma_first_index_of(s, c, (end - start) as int);
    }
    end - start
}

/// Position of the last `c` in `v[start..end]`, relative to `start`.
pub fn find_last(v: &Vec<char>, start: usize, end: usize, c: char) -> (r: Option<usize>)
    requires
        start <= end <= v@.len(),
    ensures
        r matches Some(i) ==> i == last_index_of(v@.subrange(start as int, end as int), c) && i
            < end - start,
        r is None ==> last_index_of(v@.subrange(start as int, end as int), c) == -1,
{
    let ghost s = v@.subrange(start as int, end as int);
    let mut i = end;
    while i > start
        invariant
            start <= i <= end <= v@.len(),
            s == v@.subrange(start as int, end as int),
            forall|j: int| i - start <= j < s.len() ==> s[j] != c,
        decreases i - start,
    {
        if v[i - 1] == c {
            proof {
                lemma_last_index_of(s, c, i - 1 - start);
            }
            return Some(i - 1 - start);
        }
        i = i - 1;
    }
    proof {
        lemma_last_index_of(s, c, -1);
    }
    None
}

// ---------------------------------------------------------------------------
// Decimal numbers
// ---------------------------------------------------------------------------

pub open spec fn is_digit(c: char) -> bool {
    '0' <= c && c <= '9'
}

pub open spec fn digit_value(c: char) -> nat {
    ((c as u32) - ('0' as u32)) as nat
}

pub open spec fn digit_char(d: nat) -> char {
    if d == 0 {
        '0'
    } else if d == 1 {
        '1'
    } else if d == 2 {
        '2'
    } else if d == 3 {
        '3'
    } else if d == 4 {
        '4'
    } else if d == 5 {
        '5'
    } else if d == 6 {
        '6'
    } else if d == 7 {
        '7'
    } else if d == 8 {
        '8'
    } else {
        '9'
    }
}

pub open spec fn all_digits(s: Seq<char>) -> bool {
    forall|i: int| 0 <= i < s.len() ==> is_digit(#[trigger] s[i])
}

/// The number that a string of decimal digits spells.
pub open spec fn decimal_value(s: Seq<char>) -> nat
    decreases s.len(),
{
    if s.len() == 0 {
        0
    } else {
        decimal_value(s.drop_last()) * 10 + digit_value(s.last())
    }
}

/// The shortest decimal spelling of `n`, as `u64::to_string` writes it.
pub open spec fn decimal_digits(n: nat) -> Seq<char>
    decreases n,
{
    if n < 10 {
        seq![digit_char(n)]
    } else {
        decimal_digits(n / 10).push(digit_char(n % 10))
    }
}

/// What `str::parse` gives for an unsigned integer type whose largest value is
/// `max`: an optional `+`, then at least one decimal digit, and a value in range.
pub open spec fn parse_unsigned_spec(s: Seq<char>, max: nat) -> Option<nat> {
    let d = if s.len() > 0 && s[0] == '+' {
        s.drop_first()
    } else {
        s
    };
    if d.len() > 0 && all_digits(d) && decimal_value(d) <= max {
        Some(decimal_value(d))
    } else {
        None
    }
}

/// What `str::parse::<i32>` gives: an optional `+` or `-`, then at least one
/// decimal digit, and a value in the range of `i32`.
pub open spec fn parse_i32_spec(s: Seq<char>) -> Option<int> {
    if s.len() > 0 && s[0] == '-' {
        let d = s.drop_first();
        if d.len() > 0 && all_digits(d) && decimal_value(d) <= 0x8000_0000 {
            Some(-(decimal_value(d) as int))
        } else {
            None
        }
    } else {
        match parse_unsigned_spec(s, 0x7fff_ffff) {
            Some(v) => Some(v as int),
            None => None,
        }
    }
}

pub proof fn lemma_decimal_value_prefix(s: Seq<char>, k: int)
    requires
        0 <= k <= s.len(),
    ensures
        decimal_value(s.take(k)) <= decimal_value(s),
    decreases s.len(),
{
    if k < s.len() {
        assert(s.take(k) == s.drop_last().take(k));
        lemma_decimal_value_prefix(s.drop_last(), k);
    } else {
        assert(s.take(k) == s);
    }
}

pub proof fn lemma_decimal_digits_value(n: nat)
    ensures
        all_digits(decimal_digits(n)),
        decimal_digits(n).len() > 0,
        decimal_value(decimal_digits(n)) == n,
        decimal_digits(n)[0] != '+',
        decimal_digits(n)[0] != '-',
    decreases n,
{
    assert(digit_value(digit_char(n % 10)) == n % 10);
    assert(is_digit(digit_char(n % 10)));
    if n >= 10 {
        lemma_decimal_digits_value(n / 10);
        let d = decimal_digits(n);
        assert(d.drop_last() == decimal_digits(n / 10));
        assert(d.last() == digit_char(n % 10));
        assert(decimal_value(d) == decimal_value(d.drop_last()) * 10 + digit_value(d.last()));
        assert((n / 10) * 10 + n % 10 == n);
        assert(d[0] == decimal_digits(n / 10)[0]);
        assert forall|i: int| 0 <= i < d.len() implies is_digit(#[trigger] d[i]) by {
            if i < d.len() - 1 {
                assert(d[i] == decimal_digits(n / 10)[i]);
            }
        }
    } else {
        let d = decimal_digits(n);
        assert(d.drop_last() =~= Seq::<char>::empty());
        assert(decimal_value(d.drop_last()) == 0);
        assert(d.last() == digit_char(n));
    }
}

/// The decimal spelling of an `i32` reads back, with `str::parse::<i32>`, as
/// the same number.
pub proof fn lemma_signed_decimal_parses(n: int)
    requires
        i32::MIN <= n <= i32::MAX,
    ensures
        parse_i32_spec(signed_decimal(n)) == Some(n),
{
    if n < 0 {
        let m = (-n) as nat;
        lemma_decimal_digits_value(m);
        let s = signed_decimal(n);
        assert(s.drop_first() =~= decimal_digits(m));
    } else {
        lemma_decimal_digits_value(n as nat);
    }
}

/// Parses `v[start..end]` as an unsigned decimal number no larger than `max`.
pub fn parse_unsigned(v: &Vec<char>, start: usize, end: usize, max: u64) -> (r: Option<u64>)
    requires
        start <= end <= v@.len(),
        max <= 0xffff_ffff,
    ensures
        r matches Some(x) ==> parse_unsigned_spec(v@.subrange(start as int, end as int), max as nat) == Some(x as nat),
        r is None ==> parse_unsigned_spec(v@.subrange(start as int, end as int), max as nat) is None,
{
    let ghost s = v@.subrange(start as int, end as int);
    let mut i = start;
    if i < end && v[i] == '+' {
        i = i + 1;
    }
    let ghost d = v@.subrange(i as int, end as int);
    assert(d == (if s.len() > 0 && s[0] == '+' { s.drop_first() } else { s }));
    if i == end {
        return None;
    }
    let first = i;
    let mut acc: u64 = 0;
    while i < end
        invariant
            start <= first <= i <= end <= v@.len(),
            d == v@.subrange(first as int, end as int),
            s == v@.subrange(start as int, end as int),
            d == (if s.len() > 0 && s[0] == '+' { s.drop_first() } else { s }),
            all_digits(d.take(i - first)),
            acc == decimal_value(d.take(i - first)),
            acc <= max,
            max <= 0xffff_ffff,
        decreases end - i,
    {
        let c = v[i];
        if !('0' <= c && c <= '9') {
            assert(d[i - first] == c);
            return None;
        }
        let digit = (c as u32 - '0' as u32) as u64;
        assert(digit == digit_value(c));
        assert(d.take(i + 1 - first).drop_last() == d.take(i - first));
        assert(d.take(i + 1 - first).last() == c);
        acc = acc * 10 + digit;
        assert forall|j: int| 0 <= j < i + 1 - first implies is_digit(#[trigger] d.take(i + 1 - first)[j]) by {
            if j < i - first {
                assert(d.take(i + 1 - first)[j] == d.take(i - first)[j]);
            }
        }
        if acc > max {
            proof {
                if all_digits(d) {
                    lemma_decimal_value_prefix(d, i + 1 - first);
                }
            }
            return None;
        }
        i = i + 1;
    }
    assert(d.take(end - first) == d);
    Some(acc)
}

/// Parses `v[start..end]` as `str::parse::<i32>` would.
pub fn parse_i32(v: &Vec<char>, start: usize, end: usize) -> (r: Option<i32>)
    requires
        start <= end <= v@.len(),
    ensures
        r matches Some(x) ==> parse_i32_spec(v@.subrange(start as int, end as int)) == Some(x as int),
        r is None ==> parse_i32_spec(v@.subrange(start as int, end as int)) is None,
{
    let ghost s = v@.subrange(start as int, end as int);
    if start < end && v[start] == '-' {
        assert(s.drop_first() == v@.subrange(start + 1, end as int));
        if start + 1 < end && v[start + 1] == '+' {
            assert(!is_digit(s.drop_first()[0]));
            return None;
        }
        match parse_unsigned(v, start + 1, end, 0x8000_0000) {
            Some(x) => {
                if x == 0x8000_0000 {
                    Some(i32::MIN)
                } else {
                    Some(-(x as i32))
                }
            },
            None => None,
        }
    } else {
        match parse_unsigned(v, start, end, 0x7fff_ffff) {
            Some(x) => Some(x as i32),
            None => None,
        }
    }
}

/// Parses `v[start..end]` as `str::parse::<u16>` would.
pub fn parse_u16(v: &Vec<char>, start: usize, end: usize) -> (r: Option<u16>)
    requires
        start <= end <= v@.len(),
    ensures
        r matches Some(x) ==> parse_unsigned_spec(v@.subrange(start as int, end as int), 0xffff) == Some(x as nat),
        r is None ==> parse_unsigned_spec(v@.subrange(start as int, end as int), 0xffff) is None,
{
    match parse_unsigned(v, start, end, 0xffff) {
        Some(x) => Some(x as u16),
        None => None,
    }
}

/// Appends the decimal spelling of `n` to `s`.
pub fn push_decimal(s: &mut String, n: u64)
    ensures
        final(s)@ == old(s)@ + decimal_digits(n as nat),
    decreases n,
{
    if n >= 10 {
        push_decimal(s, n / 10);
    }
    push_char(s, digit_to_char(n % 10));
}

fn digit_to_char(d: u64) -> (c: char)
    requires
        d < 10,
    ensures
        c == digit_char(d as nat),
{
    match d {
        0 => '0',
        1 => '1',
        2 => '2',
        3 => '3',
        4 => '4',
        5 => '5',
        6 => '6',
        7 => '7',
        8 => '8',
        _ => '9',
    }
}

/// The decimal spelling of a signed number, as `i32::to_string` writes it.
pub open spec fn signed_decimal(n: int) -> Seq<char> {
    if n < 0 {
        seq!['-'] + decimal_digits((-n) as nat)
    } else {
        decimal_digits(n as nat)
    }
}

/// Appends the decimal spelling of `n` to `s`.
pub fn push_signed_decimal(s: &mut String, n: i64)
    ensures
        final(s)@ == old(s)@ + signed_decimal(n as int),
{
    if n < 0 {
        push_char(s, '-');
        let magnitude: u64 = if n == i64::MIN { 0x8000_0000_0000_0000 } else { (-n) as u64 };
        push_decimal(s, magnitude);
        assert(s@ == old(s)@ + signed_decimal(n as int));
    } else {
        push_decimal(s, n as u64);
    }
}

// ---------------------------------------------------------------------------
// Lists as text
// ---------------------------------------------------------------------------

/// The texts joined with `sep` between them (`[String]::join`).
pub open spec fn join_texts(parts: Seq<Seq<char>>, sep: Seq<char>) -> Seq<char>
    decreases parts.len(),
{
    if parts.len() == 0 {
        Seq::empty()
    } else if parts.len() == 1 {
        parts[0]
    } else {
        join_texts(parts.drop_last(), sep) + sep + parts.last()
    }
}

/// The texts of strings.
pub open spec fn string_views(v: Seq<String>) -> Seq<Seq<char>> {
    v.map_values(|t: String| t@)
}

/// Appends the strings, joined with `sep`, to `s`.
pub fn push_joined(s: &mut String, parts: &Vec<String>, sep: &str)
    ensures
        final(s)@ == old(s)@ + join_texts(string_views(parts@), sep@),
{
    let ghost start = s@;
    let mut i: usize = 0;
    while i < parts.len()
        invariant
            0 <= i <= parts@.len(),
            s@ == start + join_texts(string_views(parts@).take(i as int), sep@),
        decreases parts@.len() - i,
    {
        let ghost views = string_views(parts@);
        if i > 0 {
            push_str(s, sep);
        }
        push_str(s, parts[i].as_str());
        proof {
            let next = views.take(i + 1);
            assert(next.drop_last() =~= views.take(i as int));
            assert(next.last() == parts@[i as int]@);
            if i == 0 {
                assert(views.take(0) =~= Seq::<Seq<char>>::empty());
                assert(s@ =~= start + next[0]);
            } else {
                assert(s@ =~= start + join_texts(views.take(i as int), sep@) + sep@ + next.last());
            }
        }
        i = i + 1;
    }
    assert(string_views(parts@).take(parts@.len() as int) =~= string_views(parts@));
}

} // verus!
