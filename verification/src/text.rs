//! Character-sequence helpers shared by the parsers: searching, prefix and
//! suffix tests, ASCII case folding and string building.
use vstd::prelude::*;

verus! {

/// `n` occurs in `h` starting at position `i`.
pub open spec fn occurs_at(h: Seq<char>, n: Seq<char>, i: int) -> bool {
    0 <= i && i + n.len() <= h.len() && h.subrange(i, i + n.len()) == n
}

/// `n` occurs somewhere in `h`.
pub open spec fn contains_seq(h: Seq<char>, n: Seq<char>) -> bool {
    exists|i: int| occurs_at(h, n, i)
}

/// `p` is a prefix of `s`.
pub open spec fn has_prefix(s: Seq<char>, p: Seq<char>) -> bool {
    occurs_at(s, p, 0)
}

/// `p` is a suffix of `s`.
pub open spec fn has_suffix(s: Seq<char>, p: Seq<char>) -> bool {
    p.len() <= s.len() && occurs_at(s, p, s.len() - p.len())
}

/// ASCII lower-case mapping of one character; other characters are unchanged.
pub open spec fn ascii_lower(c: char) -> char {
    if 'A' <= c && c <= 'Z' {
        ((c as u32) + 32) as char
    } else {
        c
    }
}

/// ASCII upper-case mapping of one character; other characters are unchanged.
pub open spec fn ascii_upper(c: char) -> char {
    if 'a' <= c && c <= 'z' {
        ((c as u32) - 32) as char
    } else {
        c
    }
}

/// `c` is an ASCII decimal digit.
pub open spec fn is_digit(c: char) -> bool {
    '0' <= c && c <= '9'
}

/// Every character of `s` is an ASCII decimal digit.
pub open spec fn all_digits(s: Seq<char>) -> bool {
    forall|i: int| 0 <= i < s.len() ==> is_digit(#[trigger] s[i])
}

/// The characters of `s`, in order.
pub fn chars_of(s: &str) -> (v: Vec<char>)
    ensures
        v@ == s@,
{
    let mut v: Vec<char> = Vec::new();
    for c in it: s.chars()
        invariant
            v@ == it.seq().take(it.index() as int),
            it.seq() == s@,
    {
        v.push(c);
    }
    v
}

/// Appends one character to `s` (std's `String::push`).
#[verifier::external_body]
pub(crate) fn push_char(s: &mut String, c: char)
    ensures
        final(s)@ == old(s)@.push(c),
{
    s.push(c);
}

/// The string made of the characters `v[from..to]`.
pub fn string_from_range(v: &Vec<char>, from: usize, to: usize) -> (s: String)
    requires
        from <= to <= v.len(),
    ensures
        s@ == v@.subrange(from as int, to as int),
{
    let mut s = String::new();
    let mut i = from;
    while i < to
        invariant
            from <= i <= to <= v.len(),
            s@ == v@.subrange(from as int, i as int),
        decreases to - i,
    {
        push_char(&mut s, v[i]);
        assert(v@.subrange(from as int, i + 1) == v@.subrange(from as int, i as int).push(v@[i as int]));
        i += 1;
    }
    s
}

/// The string made of all characters of `v`.
pub fn string_from_chars(v: &Vec<char>) -> (s: String)
    ensures
        s@ == v@,
{
    let s = string_from_range(v, 0, v.len());
    assert(v@.subrange(0, v@.len() as int) == v@);
    s
}

/// An owned copy of `s`.
pub fn owned(s: &str) -> (r: String)
    ensures
        r@ == s@,
{
    s.to_owned()
}

/// Whether `n` occurs in `h` at position `i`.
pub fn match_at(h: &Vec<char>, n: &Vec<char>, i: usize) -> (r: bool)
    ensures
        r == occurs_at(h@, n@, i as int),
{
    if i > h.len() || n.len() > h.len() - i {
        return false;
    }
    let mut k: usize = 0;
    while k < n.len()
        invariant
            i + n.len() <= h.len(),
            k <= n.len(),
            forall|j: int| 0 <= j < k ==> h@[i + j] == n@[j],
        decreases n.len() - k,
    {
        if h[i + k] != n[k] {
            assert(h@.subrange(i as int, i + n.len())[k as int] != n@[k as int]);
            return false;
        }
        k += 1;
    }
    assert(h@.subrange(i as int, i + n.len()) =~= n@);
    true
}

/// The first position at or after `start` where `n` occurs in `h`.
pub fn find_from(h: &Vec<char>, n: &Vec<char>, start: usize) -> (r: Option<usize>)
    ensures
        match r {
            Some(k) => start <= k && occurs_at(h@, n@, k as int) && forall|j: int|
                start <= j < k ==> !occurs_at(h@, n@, j),
            None => forall|j: int| start <= j ==> !occurs_at(h@, n@, j),
        },
{
    if start > h.len() {
        assert forall|j: int| start <= j implies !occurs_at(h@, n@, j) by {
            assert(!(j + n@.len() <= h@.len()));
        }
        return None;
    }
    let mut i = start;
    while i < h.len()
        invariant
            start <= i <= h.len(),
            forall|j: int| start <= j < i ==> !occurs_at(h@, n@, j),
        decreases h.len() - i,
    {
        if match_at(h, n, i) {
            return Some(i);
        }
        i += 1;
    }
    if match_at(h, n, i) {
        return Some(i);
    }
    assert forall|j: int| start <= j implies !occurs_at(h@, n@, j) by {
        if j > h.len() {
            assert(!(j + n@.len() <= h@.len()));
        }
    }
    None
}

/// Whether `n` occurs anywhere in `h`.
pub fn str_contains(h: &str, n: &str) -> (r: bool)
    ensures
        r == contains_seq(h@, n@),
{
    let hv = chars_of(h);
    let nv = chars_of(n);
    let r = find_from(&hv, &nv, 0);
    match r {
        Some(_) => true,
        None => {
            assert forall|i: int| !occurs_at(h@, n@, i) by {
                if i >= 0 {
                    assert(!occurs_at(hv@, nv@, i));
                }
            }
            false
        },
    }
}

/// Whether `s` starts with `p`.
pub fn str_starts_with(s: &str, p: &str) -> (r: bool)
    ensures
        r == has_prefix(s@, p@),
{
    let sv = chars_of(s);
    let pv = chars_of(p);
    match_at(&sv, &pv, 0)
}

/// Whether `s` ends with `p`.
pub fn str_ends_with(s: &str, p: &str) -> (r: bool)
    ensures
        r == has_suffix(s@, p@),
{
    let sv = chars_of(s);
    let pv = chars_of(p);
    if pv.len() > sv.len() {
        return false;
    }
    match_at(&sv, &pv, sv.len() - pv.len())
}

/// Whether `a` and `b` hold the same characters.
pub fn str_eq(a: &str, b: &str) -> (r: bool)
    ensures
        r == (a@ == b@),
{
    let av = chars_of(a);
    let bv = chars_of(b);
    if av.len() != bv.len() {
        return false;
    }
    let r = match_at(&av, &bv, 0);
    if r {
        assert(av@.subrange(0, bv@.len() as int) == av@);
    } else {
        assert(!(av@ =~= bv@)) by {
            if av@ =~= bv@ {
                assert(av@.subrange(0, bv@.len() as int) =~= av@);
            }
        }
    }
    r
}

/// ASCII lower-case mapping of one character.
pub fn lower_char(c: char) -> (r: char)
    ensures
        r == ascii_lower(c),
{
    if 'A' <= c && c <= 'Z' {
        let u: u32 = c as u32 + 32;
        char_from_u32(u)
    } else {
        c
    }
}

/// ASCII upper-case mapping of one character.
pub fn upper_char(c: char) -> (r: char)
    ensures
        r == ascii_upper(c),
{
    if 'a' <= c && c <= 'z' {
        let u: u32 = c as u32 - 32;
        char_from_u32(u)
    } else {
        c
    }
}

/// The character with the given ASCII code.
fn char_from_u32(u: u32) -> (c: char)
    requires
        u < 128,
    ensures
        c as u32 == u,
        c == u as char,
{
    let b: u8 = u as u8;
    b as char
}

} // verus!

verus! {

/// The ASCII digit for `d` (`d < 10`).
pub open spec fn digit_char(d: nat) -> char {
    ((d + 48) as u32) as char
}

/// Decimal representation of `n`, without leading zeros ("0" for zero).
pub open spec fn decimal(n: nat) -> Seq<char>
    decreases n,
{
    if n < 10 {
        seq![digit_char(n)]
    } else {
        decimal(n / 10).push(digit_char(n % 10))
    }
}

/// `n` zero characters.
pub open spec fn zeros(n: nat) -> Seq<char> {
    Seq::new(n, |i: int| '0')
}

/// Decimal representation of `n`, left-padded with zeros to at least `width` characters.
pub open spec fn decimal_padded(n: nat, width: nat) -> Seq<char> {
    let d = decimal(n);
    if d.len() < width {
        zeros((width - d.len()) as nat) + d
    } else {
        d
    }
}

/// Appends the ASCII digit of `d` to `s`.
fn push_digit(s: &mut String, d: u32)
    requires
        d < 10,
    ensures
        final(s)@ == old(s)@.push(digit_char(d as nat)),
{
    let b: u8 = (d + 48) as u8;
    push_char(s, b as char);
}

/// Appends the decimal representation of `n` to `s`.
pub fn push_decimal(s: &mut String, n: u64)
    ensures
        final(s)@ == old(s)@ + decimal(n as nat),
    decreases n,
{
    if n >= 10 {
        push_decimal(s, n / 10);
        push_digit(s, (n % 10) as u32);
        assert(old(s)@ + decimal(n as nat) =~= old(s)@ + decimal((n / 10) as nat) + seq![digit_char((n % 10) as nat)]);
    } else {
        push_digit(s, n as u32);
        assert(old(s)@ + decimal(n as nat) =~= old(s)@.push(digit_char(n as nat)));
    }
}

/// Number of characters in the decimal representation of `n`.
pub fn decimal_len(n: u64) -> (r: usize)
    ensures
        r as nat == decimal(n as nat).len(),
        1 <= r <= 20,
    decreases n,
{
    if n >= 10 {
        let k = decimal_len(n / 10);
        proof { lemma_decimal_len_bound((n / 10) as nat); }
        k + 1
    } else {
        1
    }
}

/// The decimal representation of a value below 10^19 has at most 19 characters.
proof fn lemma_decimal_len_bound(n: nat)
    requires
        n < 10000000000000000000,
    ensures
        decimal(n).len() <= 19,
{
    reveal_with_fuel(pow10, 20);
    lemma_decimal_len_small(n, 19);
}

/// Values below 10^k have at most k decimal characters.
proof fn lemma_decimal_len_small(n: nat, k: nat)
    requires
        1 <= k,
        n < pow10(k),
    ensures
        decimal(n).len() <= k,
    decreases n,
{
    if n >= 10 {
        if k == 1 {
            assert(pow10(1) == 10) by { reveal_with_fuel(pow10, 2); }
        } else {
            assert(pow10(k) == 10 * pow10((k - 1) as nat));
            assert(n / 10 < pow10((k - 1) as nat));
            lemma_decimal_len_small(n / 10, (k - 1) as nat);
        }
    }
}

/// 10 to the power `k`.
pub open spec fn pow10(k: nat) -> nat
    decreases k,
{
    if k == 0 {
        1
    } else {
        10 * pow10((k - 1) as nat)
    }
}

/// Appends the decimal representation of `n`, padded with zeros to `width` characters.
pub fn push_decimal_padded(s: &mut String, n: u64, width: usize)
    ensures
        final(s)@ == old(s)@ + decimal_padded(n as nat, width as nat),
{
    let len = decimal_len(n);
    let ghost start = s@;
    if len < width {
        let mut k: usize = 0;
        while k < width - len
            invariant
                len < width,
                k <= width - len,
                s@ == start + zeros(k as nat),
            decreases width - len - k,
        {
            push_char(s, '0');
            assert(start + zeros((k + 1) as nat) =~= (start + zeros(k as nat)).push('0'));
            k += 1;
        }
        push_decimal(s, n);
        assert(s@ =~= start + decimal_padded(n as nat, width as nat));
    } else {
        push_decimal(s, n);
    }
}

} // verus!

verus! {

/// `Some(s@)` for `Some(s)`, `None` otherwise.
pub open spec fn opt_chars(o: Option<&str>) -> Option<Seq<char>> {
    match o {
        Some(s) => Some(s@),
        None => None,
    }
}

/// `Some(s@)` for `Some(s)`, `None` otherwise.
pub open spec fn opt_string(o: Option<String>) -> Option<Seq<char>> {
    match o {
        Some(s) => Some(s@),
        None => None,
    }
}

/// Appends the characters of `t` to `s`.
pub fn append(s: &mut String, t: &str)
    ensures
        final(s)@ == old(s)@ + t@,
{
    let v = chars_of(t);
    let mut i: usize = 0;
    while i < v.len()
        invariant
            i <= v.len(),
            v@ == t@,
            s@ == old(s)@ + t@.take(i as int),
        decreases v.len() - i,
    {
        push_char(s, v[i]);
        assert(t@.take(i + 1) == t@.take(i as int).push(t@[i as int]));
        i += 1;
    }
    assert(t@.take(v.len() as int) == t@);
}

/// The value of the first entry of `t` whose key is `key`.
pub open spec fn table_get(t: Seq<(&'static str, &'static str)>, key: Seq<char>) -> Option<Seq<char>>
    decreases t.len(),
{
    if t.len() == 0 {
        None
    } else if t[0].0@ == key {
        Some(t[0].1@)
    } else {
        table_get(t.drop_first(), key)
    }
}

/// Looks `key` up in a table of (key, value) pairs.
pub fn table_lookup(t: &[(&'static str, &'static str)], key: &str) -> (r: Option<&'static str>)
    ensures
        match r {
            Some(v) => table_get(t@, key@) == Some(v@),
            None => table_get(t@, key@) is None,
        },
{
    let mut i: usize = 0;
    assert(t@.skip(0) == t@);
    while i < t.len()
        invariant
            i <= t@.len(),
            table_get(t@, key@) == table_get(t@.skip(i as int), key@),
        decreases t.len() - i,
    {
        let (k, v) = t[i];
        assert(t@.skip(i as int)[0] == t@[i as int]);
        assert(t@.skip(i as int).drop_first() == t@.skip(i + 1));
        if str_eq(k, key) {
            return Some(v);
        }
        i += 1;
    }
    None
}

/// `s` with every trailing repetition of `p` removed.
pub open spec fn trim_suffix_all(s: Seq<char>, p: Seq<char>) -> Seq<char>
    decreases s.len(),
{
    if p.len() > 0 && has_suffix(s, p) {
        trim_suffix_all(s.subrange(0, s.len() - p.len()), p)
    } else {
        s
    }
}

/// `s` with every trailing repetition of `p` removed (std's `trim_end_matches`).
pub fn trim_end_all(s: &str, p: &str) -> (r: String)
    ensures
        r@ == trim_suffix_all(s@, p@),
{
    let v = chars_of(s);
    let pv = chars_of(p);
    let mut end: usize = v.len();
    let mut done = false;
    assert(s@.subrange(0, s@.len() as int) == s@);
    while !done
        invariant
            end <= v.len(),
            v@ == s@,
            pv@ == p@,
            trim_suffix_all(s@, p@) == trim_suffix_all(s@.subrange(0, end as int), p@),
            done ==> !(p@.len() > 0 && has_suffix(s@.subrange(0, end as int), p@)),
        decreases end + (if done { 0int } else { 1int }),
    {
        let ghost cur = s@.subrange(0, end as int);
        if pv.len() == 0 || pv.len() > end {
            done = true;
        } else {
            let hit = match_at(&v, &pv, end - pv.len());
            proof {
                assert(cur.subrange(end - pv.len(), end as int) == v@.subrange(
                    end - pv.len(),
                    end as int,
                ));
                assert(has_suffix(cur, p@) == hit);
            }
            if hit {
                proof {
                    assert(cur.subrange(0, end - pv.len()) == s@.subrange(0, end - pv.len()));
                }
                end = end - pv.len();
            } else {
                done = true;
            }
        }
    }
    string_from_range(&v, 0, end)
}

/// Numeric value of a run of decimal digits.
pub open spec fn digits_value(s: Seq<char>) -> nat
    decreases s.len(),
{
    if s.len() == 0 {
        0
    } else {
        digits_value(s.drop_last()) * 10 + (s.last() as nat - 48) as nat
    }
}

/// The `u32` that `s` spells as std's `u32::from_str` reads it: an optional
/// '+' and at least one digit, with a value that fits.
pub open spec fn u32_text(s: Seq<char>) -> Option<u32> {
    let d = if s.len() > 0 && s[0] == '+' {
        s.drop_first()
    } else {
        s
    };
    if d.len() > 0 && all_digits(d) && digits_value(d) <= u32::MAX {
        Some(digits_value(d) as u32)
    } else {
        None
    }
}

/// Parses a `u32` as `u32_text` describes.
pub fn parse_u32(s: &str) -> (r: Option<u32>)
    ensures
        r == u32_text(s@),
{
    let v = chars_of(s);
    let start: usize = if v.len() > 0 && v[0] == '+' { 1 } else { 0 };
    let ghost d = if s@.len() > 0 && s@[0] == '+' { s@.drop_first() } else { s@ };
    assert(d == s@.skip(start as int));
    if start >= v.len() {
        return None;
    }
    let mut acc: u64 = 0;
    let mut i: usize = start;
    while i < v.len()
        invariant
            start <= i <= v.len(),
            v@ == s@,
            d == s@.skip(start as int),
            d == (if s@.len() > 0 && s@[0] == '+' { s@.drop_first() } else { s@ }),
            all_digits(s@.subrange(start as int, i as int)),
            acc as int == if digits_value(s@.subrange(start as int, i as int)) < 0x1_0000_0000 {
                digits_value(s@.subrange(start as int, i as int)) as int
            } else {
                0x1_0000_0000int
            },
        decreases v.len() - i,
    {
        let c = v[i];
        let ghost pre = s@.subrange(start as int, i as int);
        let ghost next = s@.subrange(start as int, i + 1);
        assert(next.drop_last() == pre);
        assert(next.last() == c);
        if !('0' <= c && c <= '9') {
            proof {
                assert(d[i - start] == s@[i as int]);
                assert(!is_digit(d[i - start]));
            }
            return None;
        }
        let dig: u64 = (c as u32 - 48) as u64;
        let n = acc * 10 + dig;
        acc = if n > 0xFFFF_FFFF { 0x1_0000_0000 } else { n };
        proof {
            assert forall|j: int| 0 <= j < next.len() implies is_digit(#[trigger] next[j]) by {
                if j < pre.len() {
                    assert(next[j] == pre[j]);
                }
            }
        }
        i += 1;
    }
    assert(s@.subrange(start as int, v.len() as int) == d);
    if acc > 0xFFFF_FFFF {
        None
    } else {
        Some(acc as u32)
    }
}

} // verus!

verus! {

/// What std's `str::to_lowercase` makes of a string (Unicode lower case).
pub uninterp spec fn unicode_lower(s: Seq<char>) -> Seq<char>;

/// `s` with each ASCII upper-case letter made lower-case.
pub open spec fn ascii_lower_str(s: Seq<char>) -> Seq<char> {
    s.map_values(|c: char| ascii_lower(c))
}

/// std's `str::to_lowercase`; the contract names its result `unicode_lower`
/// of the input, and adds that on ASCII text it lower-cases the ASCII
/// letters and keeps every other character (the Unicode lower-case mapping
/// of an ASCII character is its ASCII lower case).
#[verifier::external_body]
pub(crate) fn to_lower(s: &str) -> (r: String)
    ensures
        r@ == unicode_lower(s@),
        all_ascii(s@) ==> r@ == ascii_lower_str(s@),
{
    s.to_lowercase()
}

/// Whether every character of `s` is an ASCII digit.
pub fn all_ascii_digits(s: &str) -> (r: bool)
    ensures
        r == all_digits(s@),
{
    let v = chars_of(s);
    let mut i: usize = 0;
    while i < v.len()
        invariant
            i <= v.len(),
            v@ == s@,
            forall|j: int| 0 <= j < i ==> is_digit(#[trigger] s@[j]),
        decreases v.len() - i,
    {
        if !('0' <= v[i] && v[i] <= '9') {
            assert(!is_digit(s@[i as int]));
            return false;
        }
        i += 1;
    }
    true
}

} // verus!

verus! {

/// Position of the first `c` in `s`, or `s.len()` when there is none.
pub open spec fn pos_of(s: Seq<char>, c: char) -> nat
    decreases s.len(),
{
    if s.len() == 0 {
        0
    } else if s[0] == c {
        0
    } else {
        1 + pos_of(s.drop_first(), c)
    }
}

proof fn lemma_pos_of(s: Seq<char>, c: char, p: int)
    requires
        0 <= p <= s.len(),
        forall|j: int| 0 <= j < p ==> s[j] != c,
        p == s.len() || s[p] == c,
    ensures
        pos_of(s, c) == p,
    decreases s.len(),
{
    if s.len() > 0 && p > 0 {
        let d = s.drop_first();
        assert forall|j: int| 0 <= j < p - 1 implies d[j] != c by {
            assert(d[j] == s[j + 1]);
        }
        lemma_pos_of(d, c, p - 1);
    }
}

/// The pieces of `s` between occurrences of `c` (std's `str::split`): one
/// more piece than there are `c`s.
pub open spec fn split_on(s: Seq<char>, c: char) -> Seq<Seq<char>>
    decreases s.len(),
{
    let k = pos_of(s, c);
    if k >= s.len() {
        seq![s]
    } else {
        seq![s.take(k as int)] + split_on(s.skip(k as int + 1), c)
    }
}

/// The pieces of `s` between occurrences of `c`.
pub fn split_by(s: &str, c: char) -> (r: Vec<String>)
    ensures
        r@.len() == split_on(s@, c).len(),
        forall|i: int| 0 <= i < r@.len() ==> (#[trigger] r@[i])@ == split_on(s@, c)[i],
{
    let v = chars_of(s);
    let mut out: Vec<String> = Vec::new();
    let mut start: usize = 0;
    let ghost done: Seq<Seq<char>> = Seq::empty();
    assert(s@.skip(0) =~= s@);
    assert(done + split_on(s@, c) =~= split_on(s@, c));
    loop
        invariant
            start <= v.len(),
            v@ == s@,
            split_on(s@, c) == done + split_on(s@.skip(start as int), c),
            out@.len() == done.len(),
            forall|i: int| 0 <= i < out@.len() ==> (#[trigger] out@[i])@ == done[i],
        decreases v.len() - start,
    {
        let mut k = start;
        while k < v.len() && v[k] != c
            invariant
                start <= k <= v.len(),
                forall|j: int| start <= j < k ==> v@[j] != c,
            decreases v.len() - k,
        {
            k += 1;
        }
        let ghost rest = s@.skip(start as int);
        proof {
            assert forall|j: int| 0 <= j < k - start implies rest[j] != c by {
                assert(rest[j] == v@[start + j]);
            }
            if k < v.len() {
                assert(rest[k - start] == v@[k as int]);
            }
            lemma_pos_of(rest, c, k - start);
        }
        let piece = string_from_range(&v, start, k);
        assert(piece@ == rest.take(k - start));
        if k >= v.len() {
            proof {
                assert(piece@ == rest);
                assert(split_on(rest, c) == seq![rest]);
            }
            out.push(piece);
            proof {
                assert(split_on(s@, c) == done.push(rest));
                assert forall|i: int| 0 <= i < out@.len() implies (#[trigger] out@[i])@ == done.push(rest)[i] by {}
            }
            return out;
        }
        proof {
            assert(split_on(rest, c) == seq![rest.take(k - start)] + split_on(rest.skip(k - start + 1), c));
            assert(rest.skip(k - start + 1) == s@.skip(k + 1));
            assert(done + split_on(rest, c) == done.push(rest.take(k - start)) + split_on(s@.skip(k + 1), c));
        }
        out.push(piece);
        proof {
            done = done.push(rest.take(k - start));
        }
        start = k + 1;
    }
}

/// Whether `c` is white space as Unicode's White_Space property defines it
/// (std's `char::is_whitespace`).
pub open spec fn is_space(c: char) -> bool {
    ('\u{9}' <= c && c <= '\u{d}') || c == ' ' || c == '\u{85}' || c == '\u{a0}' || c == '\u{1680}'
        || ('\u{2000}' <= c && c <= '\u{200a}') || c == '\u{2028}' || c == '\u{2029}' || c
        == '\u{202f}' || c == '\u{205f}' || c == '\u{3000}'
}

/// Number of leading white-space characters of `s`.
pub open spec fn leading_space(s: Seq<char>) -> nat
    decreases s.len(),
{
    if s.len() > 0 && is_space(s[0]) {
        1 + leading_space(s.drop_first())
    } else {
        0
    }
}

/// Number of trailing white-space characters of `s`.
pub open spec fn trailing_space(s: Seq<char>) -> nat
    decreases s.len(),
{
    if s.len() > 0 && is_space(s.last()) {
        1 + trailing_space(s.drop_last())
    } else {
        0
    }
}

/// `s` without leading and trailing white space (std's `str::trim`).
pub open spec fn trim_space(s: Seq<char>) -> Seq<char> {
    let a = leading_space(s);
    if a >= s.len() {
        Seq::empty()
    } else {
        let t = s.skip(a as int);
        t.take(t.len() - trailing_space(t))
    }
}

/// Whether `c` is white space, as `is_space` describes.
pub fn char_is_space(c: char) -> (r: bool)
    ensures
        r == is_space(c),
{
    ('\u{9}' <= c && c <= '\u{d}') || c == ' ' || c == '\u{85}' || c == '\u{a0}' || c == '\u{1680}'
        || ('\u{2000}' <= c && c <= '\u{200a}') || c == '\u{2028}' || c == '\u{2029}' || c
        == '\u{202f}' || c == '\u{205f}' || c == '\u{3000}'
}

proof fn lemma_leading_space(s: Seq<char>, a: int)
    requires
        0 <= a <= s.len(),
        forall|j: int| 0 <= j < a ==> is_space(#[trigger] s[j]),
        a == s.len() || !is_space(s[a]),
    ensures
        leading_space(s) == a,
    decreases s.len(),
{
    if a > 0 {
        let d = s.drop_first();
        assert forall|j: int| 0 <= j < a - 1 implies is_space(#[trigger] d[j]) by {
            assert(d[j] == s[j + 1]);
        }
        if a < s.len() {
            assert(d[a - 1] == s[a]);
        }
        lemma_leading_space(d, a - 1);
    }
}

proof fn lemma_trailing_space(s: Seq<char>, b: int)
    requires
        0 <= b <= s.len(),
        forall|j: int| b <= j < s.len() ==> is_space(#[trigger] s[j]),
        b == 0 || !is_space(s[b - 1]),
    ensures
        trailing_space(s) == s.len() - b,
    decreases s.len(),
{
    if b < s.len() {
        let d = s.drop_last();
        assert forall|j: int| b <= j < d.len() implies is_space(#[trigger] d[j]) by {
            assert(d[j] == s[j]);
        }
        if b > 0 {
            assert(d[b - 1] == s[b - 1]);
        }
        lemma_trailing_space(d, b);
    }
}

/// `s` without leading and trailing white space.
pub fn trim_str(s: &str) -> (r: String)
    ensures
        r@ == trim_space(s@),
{
    let v = chars_of(s);
    let mut a: usize = 0;
    while a < v.len() && char_is_space(v[a])
        invariant
            a <= v.len(),
            v@ == s@,
            forall|j: int| 0 <= j < a ==> is_space(#[trigger] s@[j]),
        decreases v.len() - a,
    {
        a += 1;
    }
    proof {
        lemma_leading_space(s@, a as int);
    }
    if a >= v.len() {
        return String::new();
    }
    let mut b: usize = v.len();
    while b > a && char_is_space(v[b - 1])
        invariant
            a < v.len(),
            a <= b <= v.len(),
            v@ == s@,
            forall|j: int| b <= j < v.len() ==> is_space(#[trigger] s@[j]),
        decreases b,
    {
        b -= 1;
    }
    proof {
        let t = s@.skip(a as int);
        assert forall|j: int| b - a <= j < t.len() implies is_space(#[trigger] t[j]) by {
            assert(t[j] == s@[a + j]);
        }
        if b > a {
            assert(t[b - a - 1] == s@[b - 1]);
        } else {
            assert(!is_space(s@[a as int]));
            assert(false);
        }
        lemma_trailing_space(t, b - a);
        assert(t.take(b - a) == v@.subrange(a as int, b as int));
    }
    string_from_range(&v, a, b)
}

} // verus!

verus! {

/// Splitting at the first `c` gives the text before it, then the pieces of
/// the rest.
pub proof fn lemma_split_head(a: Seq<char>, b: Seq<char>, c: char)
    requires
        forall|j: int| 0 <= j < a.len() ==> a[j] != c,
    ensures
        split_on(a + seq![c] + b, c) == seq![a] + split_on(b, c),
{
    let s = a + seq![c] + b;
    assert forall|j: int| 0 <= j < a.len() implies s[j] != c by {
        assert(s[j] == a[j]);
    }
    assert(s[a.len() as int] == c);
    lemma_pos_of(s, c, a.len() as int);
    assert(s.take(a.len() as int) =~= a);
    assert(s.skip(a.len() as int + 1) =~= b);
}

/// Text without `c` splits into itself alone.
pub proof fn lemma_split_none(a: Seq<char>, c: char)
    requires
        forall|j: int| 0 <= j < a.len() ==> a[j] != c,
    ensures
        split_on(a, c) == seq![a],
{
    lemma_pos_of(a, c, a.len() as int);
}

/// Text that neither starts nor ends with white space trims to itself.
pub proof fn lemma_trim_plain(s: Seq<char>)
    requires
        s.len() > 0,
        !is_space(s[0]),
        !is_space(s.last()),
    ensures
        trim_space(s) == s,
{
    assert(leading_space(s) == 0);
    assert(s.skip(0) =~= s);
    assert(trailing_space(s) == 0);
    assert(s.take(s.len() as int) =~= s);
}

} // verus!

verus! {

/// `n` occurs in `h` at position `i`, ignoring ASCII case in `h` (`n` is
/// given in lower case).
pub open spec fn occurs_folded_at(h: Seq<char>, n: Seq<char>, i: int) -> bool {
    0 <= i && i + n.len() <= h.len() && forall|j: int|
        0 <= j < n.len() ==> ascii_lower(#[trigger] h[i + j]) == n[j]
}

/// The first position at or after `from` where `n` occurs in `h`,
/// ignoring ASCII case in `h`.
pub open spec fn find_folded(h: Seq<char>, n: Seq<char>, from: int) -> Option<int>
    decreases h.len() - from,
{
    if from < 0 || from + n.len() > h.len() {
        None
    } else if occurs_folded_at(h, n, from) {
        Some(from)
    } else {
        find_folded(h, n, from + 1)
    }
}

/// Whether `n` occurs in `h` at `i`, ignoring ASCII case in `h`.
pub fn folded_match_at(h: &Vec<char>, n: &Vec<char>, i: usize) -> (r: bool)
    requires
        i + n.len() <= h.len(),
    ensures
        r == occurs_folded_at(h@, n@, i as int),
{
    let mut k: usize = 0;
    while k < n.len()
        invariant
            k <= n.len(),
            i + n.len() <= h.len(),
            forall|j: int| 0 <= j < k ==> ascii_lower(#[trigger] h@[i + j]) == n@[j],
        decreases n.len() - k,
    {
        if lower_char(h[i + k]) != n[k] {
            assert(ascii_lower(h@[i + k as int]) != n@[k as int]);
            return false;
        }
        k += 1;
    }
    true
}

/// The first position at or after `from` where `n` occurs in `h`, ignoring
/// ASCII case in `h`.
pub fn find_folded_from(h: &Vec<char>, n: &Vec<char>, from: usize) -> (r: Option<usize>)
    ensures
        match r {
            Some(i) => find_folded(h@, n@, from as int) == Some(i as int),
            None => find_folded(h@, n@, from as int) is None,
        },
{
    let mut i = from;
    while i <= h.len() && n.len() <= h.len() - i
        invariant
            from <= i,
            find_folded(h@, n@, from as int) == find_folded(h@, n@, i as int),
        decreases h.len() + 1 - i,
    {
        if folded_match_at(h, n, i) {
            return Some(i);
        }
        i += 1;
    }
    None
}

} // verus!

verus! {

/// A position that `find_folded` gives is at or after the start of the
/// search, and `n` occurs there.
pub proof fn lemma_find_folded(h: Seq<char>, n: Seq<char>, from: int)
    ensures
        match find_folded(h, n, from) {
            Some(i) => from <= i && occurs_folded_at(h, n, i),
            None => true,
        },
    decreases h.len() - from,
{
    if !(from < 0 || from + n.len() > h.len()) && !occurs_folded_at(h, n, from) {
        lemma_find_folded(h, n, from + 1);
    }
}

} // verus!

verus! {

/// What std's `str::to_uppercase` makes of a string (Unicode upper case).
pub uninterp spec fn unicode_upper(s: Seq<char>) -> Seq<char>;

/// Whether every character of `s` is ASCII.
pub open spec fn all_ascii(s: Seq<char>) -> bool {
    forall|i: int| 0 <= i < s.len() ==> (#[trigger] s[i] as u32) < 128
}

/// `s` with each ASCII lower-case letter made upper-case.
pub open spec fn ascii_upper_str(s: Seq<char>) -> Seq<char> {
    s.map_values(|c: char| ascii_upper(c))
}

/// std's `str::to_uppercase`; the contract names its result `unicode_upper`
/// of the input, and adds that on ASCII text it upper-cases the ASCII
/// letters and keeps every other character (the Unicode upper-case mapping
/// of an ASCII character is its ASCII upper case).
#[verifier::external_body]
pub(crate) fn to_upper(s: &str) -> (r: String)
    ensures
        r@ == unicode_upper(s@),
        all_ascii(s@) ==> r@ == ascii_upper_str(s@),
{
    s.to_uppercase()
}

} // verus!

verus! {

/// The first position at or after `from` where `n` occurs in `h`.
pub open spec fn first_occ(h: Seq<char>, n: Seq<char>, from: int) -> Option<int>
    decreases h.len() + 1 - from,
{
    if from < 0 || from + n.len() > h.len() {
        None
    } else if occurs_at(h, n, from) {
        Some(from)
    } else {
        first_occ(h, n, from + 1)
    }
}

/// A position that `first_occ` gives is at or after the start of the
/// search, and `n` occurs there.
pub proof fn lemma_first_occ(h: Seq<char>, n: Seq<char>, from: int)
    ensures
        match first_occ(h, n, from) {
            Some(i) => from <= i && occurs_at(h, n, i),
            None => true,
        },
    decreases h.len() + 1 - from,
{
    if !(from < 0 || from + n.len() > h.len()) && !occurs_at(h, n, from) {
        lemma_first_occ(h, n, from + 1);
    }
}

/// The first position at or after `from` where `n` occurs in `h`.
pub fn first_occ_from(h: &Vec<char>, n: &Vec<char>, from: usize) -> (r: Option<usize>)
    ensures
        match r {
            Some(i) => first_occ(h@, n@, from as int) == Some(i as int),
            None => first_occ(h@, n@, from as int) is None,
        },
{
    let mut i = from;
    while i < h.len() && n.len() <= h.len() - i
        invariant
            from <= i,
            first_occ(h@, n@, from as int) == first_occ(h@, n@, i as int),
        decreases h.len() - i,
    {
        if match_at(h, n, i) {
            return Some(i);
        }
        i += 1;
    }
    if i <= h.len() && n.len() <= h.len() - i && match_at(h, n, i) {
        return Some(i);
    }
    proof {
        if i <= h.len() && n.len() <= h.len() - i {
            assert(i == h.len());
            assert(first_occ(h@, n@, i + 1) is None);
        }
    }
    None
}

/// The pieces of `s` between the occurrences of `p`, found from left to
/// right without overlap (std's `str::split` with a non-empty pattern).
pub open spec fn split_str(s: Seq<char>, p: Seq<char>) -> Seq<Seq<char>>
    decreases s.len(),
{
    if p.len() == 0 {
        seq![s]
    } else {
        match first_occ(s, p, 0) {
            None => seq![s],
            Some(k) => if k + p.len() <= s.len() && 0 <= k {
                seq![s.take(k)] + split_str(s.skip(k + p.len()), p)
            } else {
                seq![s]
            },
        }
    }
}

/// The pieces of `s` between the occurrences of the non-empty `p`.
pub fn split_by_str(s: &str, p: &str) -> (r: Vec<String>)
    requires
        p@.len() > 0,
    ensures
        r@.len() == split_str(s@, p@).len(),
        forall|i: int| 0 <= i < r@.len() ==> (#[trigger] r@[i])@ == split_str(s@, p@)[i],
{
    let v = chars_of(s);
    let pv = chars_of(p);
    let mut out: Vec<String> = Vec::new();
    let mut start: usize = 0;
    let ghost done: Seq<Seq<char>> = Seq::empty();
    assert(s@.skip(0) =~= s@);
    assert(done + split_str(s@, p@) =~= split_str(s@, p@));
    loop
        invariant
            start <= v.len(),
            v@ == s@,
            pv@ == p@,
            p@.len() > 0,
            split_str(s@, p@) == done + split_str(s@.skip(start as int), p@),
            out@.len() == done.len(),
            forall|i: int| 0 <= i < out@.len() ==> (#[trigger] out@[i])@ == done[i],
        decreases v.len() - start,
    {
        let ghost rest = s@.skip(start as int);
        let rv = string_from_range(&v, start, v.len());
        let rc = chars_of(rv.as_str());
        assert(rc@ == rest);
        match first_occ_from(&rc, &pv, 0) {
            None => {
                proof {
                    assert(split_str(rest, p@) == seq![rest]);
                    assert(split_str(s@, p@) == done.push(rest));
                }
                out.push(rv);
                proof {
                    assert forall|i: int| 0 <= i < out@.len() implies (#[trigger] out@[i])@ == done.push(rest)[i] by {}
                }
                return out;
            },
            Some(k) => {
                proof {
                    lemma_first_occ(rest, p@, 0);
                    assert(split_str(rest, p@) == seq![rest.take(k as int)] + split_str(rest.skip(k + p@.len()), p@));
                    assert(rest.skip(k + p@.len()) =~= s@.skip(start + k + p@.len()));
                    assert(done + split_str(rest, p@) =~= done.push(rest.take(k as int)) + split_str(s@.skip(start + k + p@.len()), p@));
                }
                let piece = string_from_range(&v, start, start + k);
                assert(piece@ =~= rest.take(k as int));
                out.push(piece);
                proof {
                    done = done.push(rest.take(k as int));
                }
                start = start + k + pv.len();
            },
        }
    }
}

/// `s` with every leading repetition of `p` removed.
pub open spec fn trim_prefix_all(s: Seq<char>, p: Seq<char>) -> Seq<char>
    decreases s.len(),
{
    if p.len() > 0 && has_prefix(s, p) {
        trim_prefix_all(s.skip(p.len() as int), p)
    } else {
        s
    }
}

/// `s` with every leading repetition of `p` removed (std's
/// `trim_start_matches`).
pub fn trim_start_all(s: &str, p: &str) -> (r: String)
    ensures
        r@ == trim_prefix_all(s@, p@),
{
    let v = chars_of(s);
    let pv = chars_of(p);
    let mut start: usize = 0;
    let mut done = false;
    assert(s@.skip(0) =~= s@);
    while !done
        invariant
            start <= v.len(),
            v@ == s@,
            pv@ == p@,
            trim_prefix_all(s@, p@) == trim_prefix_all(s@.skip(start as int), p@),
            done ==> !(p@.len() > 0 && has_prefix(s@.skip(start as int), p@)),
        decreases v.len() - start + (if done { 0int } else { 1int }),
    {
        let ghost cur = s@.skip(start as int);
        if pv.len() == 0 || pv.len() > v.len() - start {
            done = true;
        } else {
            let hit = match_at(&v, &pv, start);
            proof {
                assert(cur.subrange(0, p@.len() as int) =~= v@.subrange(start as int, start + p@.len()));
                assert(has_prefix(cur, p@) == hit);
            }
            if hit {
                proof {
                    assert(cur.skip(p@.len() as int) =~= s@.skip(start + p@.len()));
                }
                start = start + pv.len();
            } else {
                done = true;
            }
        }
    }
    let r = string_from_range(&v, start, v.len());
    assert(r@ =~= s@.skip(start as int));
    r
}

/// `a` comes strictly before `b` in lexicographic character order.
pub open spec fn lex_lt(a: Seq<char>, b: Seq<char>) -> bool
    decreases a.len(),
{
    if a.len() == 0 {
        b.len() > 0
    } else if b.len() == 0 {
        false
    } else if a[0] != b[0] {
        a[0] < b[0]
    } else {
        lex_lt(a.drop_first(), b.drop_first())
    }
}

/// Whether `a` comes strictly before `b` in lexicographic character order
/// (the order of std's `str::cmp`).
pub fn str_lt(a: &str, b: &str) -> (r: bool)
    ensures
        r == lex_lt(a@, b@),
{
    let av = chars_of(a);
    let bv = chars_of(b);
    let mut i: usize = 0;
    assert(a@.skip(0) =~= a@);
    assert(b@.skip(0) =~= b@);
    loop
        invariant
            i <= av.len(),
            i <= bv.len(),
            av@ == a@,
            bv@ == b@,
            lex_lt(a@, b@) == lex_lt(a@.skip(i as int), b@.skip(i as int)),
        decreases av.len() - i,
    {
        let ghost x = a@.skip(i as int);
        let ghost y = b@.skip(i as int);
        if i == av.len() {
            return i < bv.len();
        }
        if i == bv.len() {
            return false;
        }
        assert(x[0] == av@[i as int] && y[0] == bv@[i as int]);
        if av[i] != bv[i] {
            return av[i] < bv[i];
        }
        assert(x.drop_first() =~= a@.skip(i + 1));
        assert(y.drop_first() =~= b@.skip(i + 1));
        i += 1;
    }
}

} // verus!

verus! {

/// Number of leading characters of `s` that are not white space.
pub open spec fn leading_word(s: Seq<char>) -> nat
    decreases s.len(),
{
    if s.len() > 0 && !is_space(s[0]) {
        1 + leading_word(s.drop_first())
    } else {
        0
    }
}

/// The white-space separated words of `s` (std's `str::split_whitespace`).
pub open spec fn words(s: Seq<char>) -> Seq<Seq<char>>
    decreases s.len(),
{
    let a = leading_space(s);
    if a >= s.len() {
        Seq::empty()
    } else {
        let t = s.skip(a as int);
        let k = leading_word(t);
        if k == 0 || k > t.len() {
            Seq::empty()
        } else {
            seq![t.take(k as int)] + words(t.skip(k as int))
        }
    }
}

proof fn lemma_leading_word(s: Seq<char>, k: int)
    requires
        0 <= k <= s.len(),
        forall|j: int| 0 <= j < k ==> !is_space(#[trigger] s[j]),
        k == s.len() || is_space(s[k]),
    ensures
        leading_word(s) == k,
    decreases s.len(),
{
    if k > 0 {
        let d = s.drop_first();
        assert forall|j: int| 0 <= j < k - 1 implies !is_space(#[trigger] d[j]) by {
            assert(d[j] == s[j + 1]);
        }
        if k < s.len() {
            assert(d[k - 1] == s[k]);
        }
        lemma_leading_word(d, k - 1);
    }
}

/// The white-space separated words of `s`.
pub fn split_whitespace(s: &str) -> (r: Vec<String>)
    ensures
        r@.len() == words(s@).len(),
        forall|i: int| 0 <= i < r@.len() ==> (#[trigger] r@[i])@ == words(s@)[i],
{
    let v = chars_of(s);
    let mut out: Vec<String> = Vec::new();
    let mut i: usize = 0;
    let ghost done: Seq<Seq<char>> = Seq::empty();
    assert(s@.skip(0) =~= s@);
    assert(done + words(s@) =~= words(s@));
    loop
        invariant
            i <= v.len(),
            v@ == s@,
            words(s@) == done + words(s@.skip(i as int)),
            out@.len() == done.len(),
            forall|k: int| 0 <= k < out@.len() ==> (#[trigger] out@[k])@ == done[k],
        decreases v.len() - i,
    {
        let ghost cur = s@.skip(i as int);
        let mut a = i;
        while a < v.len() && char_is_space(v[a])
            invariant
                i <= a <= v.len(),
                v@ == s@,
                forall|j: int| i <= j < a ==> is_space(#[trigger] s@[j]),
            decreases v.len() - a,
        {
            a += 1;
        }
        proof {
            assert forall|j: int| 0 <= j < a - i implies is_space(#[trigger] cur[j]) by {
                assert(cur[j] == s@[i + j]);
            }
            if a < v.len() {
                assert(cur[a - i] == s@[a as int]);
            }
            lemma_leading_space(cur, a - i);
        }
        if a == v.len() {
            proof {
                assert(words(cur) == Seq::<Seq<char>>::empty());
                assert(done + words(cur) =~= done);
            }
            return out;
        }
        let mut b = a;
        while b < v.len() && !char_is_space(v[b])
            invariant
                a <= b <= v.len(),
                v@ == s@,
                forall|j: int| a <= j < b ==> !is_space(#[trigger] s@[j]),
            decreases v.len() - b,
        {
            b += 1;
        }
        let ghost t = cur.skip(a - i);
        proof {
            assert(t =~= s@.skip(a as int));
            assert forall|j: int| 0 <= j < b - a implies !is_space(#[trigger] t[j]) by {
                assert(t[j] == s@[a + j]);
            }
            if b < v.len() {
                assert(t[b - a] == s@[b as int]);
            }
            lemma_leading_word(t, b - a);
            assert(!is_space(t[0]));
            assert(t.skip(b - a) =~= s@.skip(b as int));
            assert(words(cur) == seq![t.take(b - a)] + words(s@.skip(b as int)));
            assert(done + words(cur) =~= done.push(t.take(b - a)) + words(s@.skip(b as int)));
        }
        let w = string_from_range(&v, a, b);
        assert(w@ =~= t.take(b - a));
        out.push(w);
        proof {
            done = done.push(t.take(b - a));
        }
        i = b;
    }
}

/// `t` with `x` placed after the last element whose key is not greater
/// than the key of `x`: one step of a stable insertion sort.
pub open spec fn insert_by_key<T>(t: Seq<T>, x: T, key: spec_fn(T) -> Seq<char>) -> Seq<T>
    decreases t.len(),
{
    if t.len() == 0 {
        seq![x]
    } else if lex_lt(key(x), key(t.last())) {
        insert_by_key(t.drop_last(), x, key).push(t.last())
    } else {
        t.push(x)
    }
}

/// `s` sorted stably by key (std's `sort_by` on that key).
pub open spec fn sort_by_key<T>(s: Seq<T>, key: spec_fn(T) -> Seq<char>) -> Seq<T>
    decreases s.len(),
{
    if s.len() == 0 {
        Seq::empty()
    } else {
        insert_by_key(sort_by_key(s.drop_last(), key), s.last(), key)
    }
}

/// Inserting before position `j`, where every later element has a greater
/// key and the one before it does not, is the insertion step.
pub proof fn lemma_insert_at<T>(t: Seq<T>, x: T, key: spec_fn(T) -> Seq<char>, j: int)
    requires
        0 <= j <= t.len(),
        forall|i: int| j <= i < t.len() ==> lex_lt(key(x), key(#[trigger] t[i])),
        j == 0 || !lex_lt(key(x), key(t[j - 1])),
    ensures
        insert_by_key(t, x, key) == t.take(j) + seq![x] + t.skip(j),
    decreases t.len(),
{
    if t.len() == 0 {
        assert(t.take(j) + seq![x] + t.skip(j) =~= seq![x]);
    } else if j == t.len() {
        assert(t.take(j) + seq![x] + t.skip(j) =~= t.push(x));
    } else {
        let d = t.drop_last();
        assert(lex_lt(key(x), key(t[t.len() - 1])));
        assert forall|i: int| j <= i < d.len() implies lex_lt(key(x), key(#[trigger] d[i])) by {
            assert(d[i] == t[i]);
        }
        if j > 0 {
            assert(d[j - 1] == t[j - 1]);
        }
        lemma_insert_at(d, x, key, j);
        assert(d.take(j) + seq![x] + d.skip(j) + seq![t.last()] =~= t.take(j) + seq![x] + t.skip(j));
    }
}

} // verus!

verus! {

/// No element of `s` has a key before the key of an element ahead of it.
pub open spec fn sorted_by_key<T>(s: Seq<T>, key: spec_fn(T) -> Seq<char>) -> bool {
    forall|i: int, j: int| 0 <= i < j < s.len() ==> !lex_lt(key(#[trigger] s[j]), key(#[trigger] s[i]))
}

proof fn lemma_lex_lt_irreflexive(a: Seq<char>)
    ensures
        !lex_lt(a, a),
    decreases a.len(),
{
    if a.len() > 0 {
        lemma_lex_lt_irreflexive(a.drop_first());
    }
}

proof fn lemma_lex_lt_trans(a: Seq<char>, b: Seq<char>, c: Seq<char>)
    requires
        lex_lt(a, b),
        lex_lt(b, c),
    ensures
        lex_lt(a, c),
    decreases a.len(),
{
    if a.len() > 0 && b.len() > 0 && c.len() > 0 && a[0] == b[0] && b[0] == c[0] {
        lemma_lex_lt_trans(a.drop_first(), b.drop_first(), c.drop_first());
    }
}

proof fn lemma_lex_lt_total(a: Seq<char>, b: Seq<char>)
    ensures
        lex_lt(a, b) || lex_lt(b, a) || a == b,
    decreases a.len(),
{
    if a.len() > 0 && b.len() > 0 && a[0] == b[0] {
        lemma_lex_lt_total(a.drop_first(), b.drop_first());
        if a.drop_first() == b.drop_first() {
            assert(a =~= seq![a[0]] + a.drop_first());
            assert(b =~= seq![b[0]] + b.drop_first());
        }
    } else if a.len() == 0 && b.len() == 0 {
        assert(a =~= b);
    } else if a.len() > 0 && b.len() > 0 {
        assert(a[0] < b[0] || b[0] < a[0]);
    }
}

/// "Not after" is transitive.
proof fn lemma_not_after_trans(a: Seq<char>, b: Seq<char>, c: Seq<char>)
    requires
        !lex_lt(b, a),
        !lex_lt(c, b),
    ensures
        !lex_lt(c, a),
{
    if lex_lt(c, a) {
        lemma_lex_lt_total(a, b);
        if lex_lt(a, b) {
            lemma_lex_lt_trans(c, a, b);
        }
    }
}

/// The insertion step keeps the elements, adding `x`, and keeps a sorted
/// sequence sorted.
pub proof fn lemma_insert_by_key<T>(t: Seq<T>, x: T, key: spec_fn(T) -> Seq<char>)
    ensures
        insert_by_key(t, x, key).to_multiset() == t.to_multiset().insert(x),
        sorted_by_key(t, key) ==> sorted_by_key(insert_by_key(t, x, key), key),
    decreases t.len(),
{
    broadcast use vstd::seq_lib::group_to_multiset_ensures;
    broadcast use vstd::multiset::group_multiset_axioms;

    if t.len() == 0 {
        assert(seq![x] =~= Seq::<T>::empty().push(x));
        assert(Seq::<T>::empty().to_multiset() =~= vstd::multiset::Multiset::empty());
    } else {
        let d = t.drop_last();
        let l = t.last();
        assert(d.push(l) =~= t);
        if lex_lt(key(x), key(l)) {
            lemma_insert_by_key(d, x, key);
            let m = insert_by_key(d, x, key);
            assert(m.push(l).to_multiset() =~= m.to_multiset().insert(l));
            assert(t.to_multiset() =~= d.to_multiset().insert(l));
            assert(m.push(l).to_multiset() =~= t.to_multiset().insert(x));
            if sorted_by_key(t, key) {
                assert(sorted_by_key(d, key)) by {
                    assert forall|i: int, j: int| 0 <= i < j < d.len() implies !lex_lt(
                        key(#[trigger] d[j]),
                        key(#[trigger] d[i]),
                    ) by {
                        assert(d[i] == t[i] && d[j] == t[j]);
                    }
                }
                let r = m.push(l);
                assert forall|i: int, j: int| 0 <= i < j < r.len() implies !lex_lt(
                    key(#[trigger] r[j]),
                    key(#[trigger] r[i]),
                ) by {
                    if j == r.len() - 1 {
                        let e = r[i];
                        assert(m.contains(e)) by {
                            assert(m[i] == e);
                        }
                        assert(m.to_multiset().count(e) > 0);
                        if e == x {
                            if lex_lt(key(l), key(x)) {
                                lemma_lex_lt_trans(key(x), key(l), key(x));
                                lemma_lex_lt_irreflexive(key(x));
                            }
                        } else {
                            assert(d.to_multiset().count(e) > 0);
                            assert(d.contains(e));
                            let k = choose|k: int| 0 <= k < d.len() && d[k] == e;
                            assert(t[k] == e);
                            assert(t[t.len() - 1] == l);
                        }
                    } else {
                        assert(r[i] == m[i] && r[j] == m[j]);
                    }
                }
            }
        } else {
            assert(t.push(x).to_multiset() =~= t.to_multiset().insert(x));
            if sorted_by_key(t, key) {
                let r = t.push(x);
                assert forall|i: int, j: int| 0 <= i < j < r.len() implies !lex_lt(
                    key(#[trigger] r[j]),
                    key(#[trigger] r[i]),
                ) by {
                    if j == r.len() - 1 {
                        if i < t.len() - 1 {
                            assert(t[t.len() - 1] == l);
                            assert(!lex_lt(key(l), key(t[i])));
                            lemma_not_after_trans(key(t[i]), key(l), key(x));
                        }
                    } else {
                        assert(r[i] == t[i] && r[j] == t[j]);
                    }
                }
            }
        }
    }
}

/// A stable sort by key returns the same elements, sorted by key.
pub proof fn law_sort_by_key_sorts<T>(s: Seq<T>, key: spec_fn(T) -> Seq<char>)
    ensures
        sort_by_key(s, key).to_multiset() == s.to_multiset(),
        sorted_by_key(sort_by_key(s, key), key),
    decreases s.len(),
{
    broadcast use vstd::seq_lib::group_to_multiset_ensures;

    if s.len() == 0 {
        assert(sort_by_key(s, key) =~= s);
    } else {
        law_sort_by_key_sorts(s.drop_last(), key);
        lemma_insert_by_key(sort_by_key(s.drop_last(), key), s.last(), key);
        assert(s.drop_last().push(s.last()) =~= s);
    }
}

/// `items` joined by `sep`.
pub open spec fn join(items: Seq<Seq<char>>, sep: Seq<char>) -> Seq<char>
    decreases items.len(),
{
    if items.len() == 0 {
        Seq::empty()
    } else if items.len() == 1 {
        items[0]
    } else {
        join(items.drop_last(), sep) + sep + items.last()
    }
}

/// `items` joined by `sep`, as `join` says.
pub fn join_strings(items: &Vec<String>, sep: &str) -> (r: String)
    ensures
        r@ == join(items@.map_values(|s: String| s@), sep@),
{
    let ghost its = items@.map_values(|s: String| s@);
    let mut out = String::new();
    let mut i: usize = 0;
    while i < items.len()
        invariant
            i <= items@.len(),
            its == items@.map_values(|s: String| s@),
            out@ == join(its.take(i as int), sep@),
        decreases items@.len() - i,
    {
        proof {
            assert(its.take(i + 1).drop_last() =~= its.take(i as int));
            assert(its.take(i + 1).last() == its[i as int]);
        }
        if i > 0 {
            append(&mut out, sep);
        } else {
            assert(its.take(1) =~= seq![its[0]]);
        }
        append(&mut out, items[i].as_str());
        i += 1;
    }
    proof {
        assert(its.take(its.len() as int) =~= its);
    }
    out
}

} // verus!
