//! Character-level helpers shared by the rest of the library.
use vstd::prelude::*;

verus! {

/// Appends one character to a `String`; calls `String::push`, which adds
/// the character at the end and changes nothing else.
#[verifier::external_body]
pub(crate) fn push_char(s: &mut String, c: char)
    ensures
        final(s)@ == old(s)@.push(c),
{
    s.push(c)
}

/// The characters of `s`, in order.
pub fn chars_of(s: &str) -> (out: Vec<char>)
    ensures
        out@ == s@,
{
    let mut out: Vec<char> = Vec::new();
    for c in it: s.chars()
        invariant
            out@ == it.seq().take(it.index() as int),
    {
        out.push(c);
    }
    out
}

/// The decimal digit character for `d`.
pub open spec fn digit_char(d: nat) -> char {
    ('0' as int + d) as char
}

/// The decimal notation of `n`, without leading zeros.
pub open spec fn decimal(n: nat) -> Seq<char>
    decreases n,
{
    if n < 10 {
        seq![digit_char(n)]
    } else {
        decimal(n / 10).push(digit_char(n % 10))
    }
}

/// The number that a string of ASCII digits denotes in base ten.
pub open spec fn numeral_value(s: Seq<char>) -> int
    decreases s.len(),
{
    if s.len() == 0 {
        0
    } else {
        numeral_value(s.drop_last()) * 10 + (s.last() as u32 - 48)
    }
}

/// Decimal notation is faithful: every character of `decimal(n)` is an
/// ASCII digit `0`-`9`, the notation read back in base ten is `n`, and it has
/// no leading zero (unless `n` is 0, written `0`).
pub proof fn decimal_reads_back(n: nat)
    ensures
        forall|i: int|
            0 <= i < decimal(n).len() ==> 48 <= #[trigger] (decimal(n)[i] as u32) <= 57,
        numeral_value(decimal(n)) == n,
        decimal(n).len() >= 1,
        n >= 10 ==> decimal(n)[0] != '0',
        n < 10 ==> decimal(n) =~= seq![(48 + n) as char],
    decreases n,
{
    if n >= 10 {
        decimal_reads_back(n / 10);
        let d = decimal(n);
        let q = decimal(n / 10);
        assert(d.drop_last() =~= q);
        assert(d.last() == digit_char(n % 10));
        assert(digit_char(n % 10) as u32 == 48 + n % 10);
        assert forall|i: int| 0 <= i < d.len() implies 48 <= #[trigger] (d[i] as u32) <= 57 by {
            if i < q.len() {
                assert(d[i] == q[i]);
            }
        }
        assert(d[0] == q[0]);
        if n / 10 < 10 {
            assert(q[0] == digit_char(n / 10));
            assert(digit_char(n / 10) as u32 == 48 + n / 10);
        }
        assert(numeral_value(d) == numeral_value(q) * 10 + (d.last() as u32 - 48));
        assert((n / 10) * 10 + n % 10 == n);
    } else {
        assert(digit_char(n) as u32 == 48 + n);
        assert(decimal(n).drop_last() =~= seq![]);
        assert(numeral_value(decimal(n)) == numeral_value(seq![]) * 10 + (digit_char(n) as u32 - 48));
    }
}

/// Appends the decimal notation of `n` to `s`.
pub fn push_decimal(s: &mut String, n: u32)
    ensures
        final(s)@ == old(s)@ + decimal(n as nat),
    decreases n,
{
    if n >= 10 {
        push_decimal(s, n / 10);
    }
    let d: u8 = (n % 10) as u8;
    let c: char = (48u8 + d) as char;
    push_char(s, c);
    assert(final(s)@ =~= old(s)@ + decimal(n as nat));
}

/// The `String` holding the characters of `v`.
pub fn string_from_chars(v: &Vec<char>) -> (s: String)
    ensures
        s@ == v@,
{
    let mut s = String::new();
    let n = v.len();
    for i in 0..n
        invariant
            n == v@.len(),
            s@ == v@.take(i as int),
    {
        push_char(&mut s, v[i]);
        assert(s@ =~= v@.take(i + 1));
    }
    assert(v@.take(n as int) =~= v@);
    s
}

/// The characters of `v` from index `from` up to (not including) `to`.
pub fn chars_between(v: &Vec<char>, from: usize, to: usize) -> (out: Vec<char>)
    requires
        from <= to <= v@.len(),
    ensures
        out@ == v@.subrange(from as int, to as int),
{
    let mut out: Vec<char> = Vec::new();
    for i in from..to
        invariant
            from <= i <= to <= v@.len(),
            out@ == v@.subrange(from as int, i as int),
    {
        out.push(v[i]);
        assert(out@ =~= v@.subrange(from as int, i + 1));
    }
    out
}

/// Whether `a` and `b` hold the same characters.
pub fn same_chars(a: &Vec<char>, b: &Vec<char>) -> (r: bool)
    ensures
        r == (a@ == b@),
{
    if a.len() != b.len() {
        return false;
    }
    let n = a.len();
    for i in 0..n
        invariant
            n == a@.len() == b@.len(),
            forall|j: int| 0 <= j < i ==> a@[j] == b@[j],
    {
        if a[i] != b[i] {
            return false;
        }
    }
    assert(a@ =~= b@);
    true
}

/// Whether `s` begins with `prefix`.
pub open spec fn starts_with(s: Seq<char>, prefix: Seq<char>) -> bool {
    prefix.len() <= s.len() && s.take(prefix.len() as int) == prefix
}

/// Whether the characters of `v` from `from` to `to` begin with `prefix`.
pub fn starts_with_at(v: &Vec<char>, from: usize, to: usize, prefix: &Vec<char>) -> (r: bool)
    requires
        from <= to <= v@.len(),
    ensures
        r == starts_with(v@.subrange(from as int, to as int), prefix@),
{
    let k = prefix.len();
    if k > to - from {
        return false;
    }
    for j in 0..k
        invariant
            k == prefix@.len(),
            from + k <= to <= v@.len(),
            forall|m: int| 0 <= m < j ==> v@[from + m] == prefix@[m],
    {
        if v[from + j] != prefix[j] {
            assert(v@.subrange(from as int, to as int).take(k as int)[j as int] != prefix@[j as int]);
            return false;
        }
    }
    assert(v@.subrange(from as int, to as int).take(k as int) =~= prefix@);
    true
}

/// Unicode's White_Space characters, which `str::trim` removes.
pub open spec fn is_white_space(c: char) -> bool {
    let n = c as u32;
    ||| 9 <= n <= 13
    ||| n == 32
    ||| n == 0x85
    ||| n == 0xA0
    ||| n == 0x1680
    ||| 0x2000 <= n <= 0x200A
    ||| n == 0x2028
    ||| n == 0x2029
    ||| n == 0x202F
    ||| n == 0x205F
    ||| n == 0x3000
}

/// Whether `c` is a White_Space character.
pub fn white_space(c: char) -> (r: bool)
    ensures
        r == is_white_space(c),
{
    let n = c as u32;
    (9 <= n && n <= 13) || n == 32 || n == 0x85 || n == 0xA0 || n == 0x1680 || (0x2000 <= n && n
        <= 0x200A) || n == 0x2028 || n == 0x2029 || n == 0x202F || n == 0x205F || n == 0x3000
}

/// `s` without its leading White_Space characters.
pub open spec fn trim_start(s: Seq<char>) -> Seq<char>
    decreases s.len(),
{
    if s.len() > 0 && is_white_space(s[0]) {
        trim_start(s.drop_first())
    } else {
        s
    }
}

/// `s` without its trailing White_Space characters.
pub open spec fn trim_end(s: Seq<char>) -> Seq<char>
    decreases s.len(),
{
    if s.len() > 0 && is_white_space(s.last()) {
        trim_end(s.drop_last())
    } else {
        s
    }
}

/// `s` without leading and trailing White_Space characters.
pub open spec fn trimmed(s: Seq<char>) -> Seq<char> {
    trim_end(trim_start(s))
}

proof fn lemma_trim_start_skip(s: Seq<char>, i: int)
    requires
        0 <= i <= s.len(),
        forall|j: int| 0 <= j < i ==> is_white_space(#[trigger] s[j]),
    ensures
        trim_start(s) == trim_start(s.skip(i)),
    decreases i,
{
    if i > 0 {
        assert(s.drop_first().skip(i - 1) =~= s.skip(i));
        assert forall|j: int| 0 <= j < i - 1 implies is_white_space(#[trigger] s.drop_first()[j]) by {
            assert(s.drop_first()[j] == s[j + 1]);
        }
        lemma_trim_start_skip(s.drop_first(), i - 1);
    } else {
        assert(s.skip(0) =~= s);
    }
}

proof fn lemma_trim_end_take(s: Seq<char>, i: int)
    requires
        0 <= i <= s.len(),
        forall|j: int| i <= j < s.len() ==> is_white_space(#[trigger] s[j]),
    ensures
        trim_end(s) == trim_end(s.take(i)),
    decreases s.len() - i,
{
    if i < s.len() {
        assert(s.drop_last().take(i) =~= s.take(i));
        assert forall|j: int| i <= j < s.len() - 1 implies is_white_space(#[trigger] s.drop_last()[j]) by {
            assert(s.drop_last()[j] == s[j]);
        }
        lemma_trim_end_take(s.drop_last(), i);
    } else {
        assert(s.take(i) =~= s);
    }
}

/// Trimming twice gives the same as trimming once.
pub proof fn trim_is_idempotent(s: Seq<char>)
    ensures
        trimmed(trimmed(s)) == trimmed(s),
{
    lemma_trim_start_head(s);
    lemma_trim_start_of_end(trim_start(s));
    lemma_trim_start_fixed(s);
    lemma_trim_end_fixed(trim_start(s));
}

proof fn lemma_trim_start_head(s: Seq<char>)
    ensures
        !(trim_start(s).len() > 0 && is_white_space(trim_start(s)[0])),
    decreases s.len(),
{
    if s.len() > 0 && is_white_space(s[0]) {
        lemma_trim_start_head(s.drop_first());
    }
}

proof fn lemma_trim_start_fixed(s: Seq<char>)
    ensures
        trim_start(trim_start(s)) == trim_start(s),
    decreases s.len(),
{
    if s.len() > 0 && is_white_space(s[0]) {
        lemma_trim_start_fixed(s.drop_first());
    }
}

proof fn lemma_trim_end_fixed(s: Seq<char>)
    ensures
        trim_end(trim_end(s)) == trim_end(s),
    decreases s.len(),
{
    if s.len() > 0 && is_white_space(s.last()) {
        lemma_trim_end_fixed(s.drop_last());
    }
}

/// A sequence that does not start with White_Space still does not after
/// its end is trimmed, so trimming its start changes nothing.
proof fn lemma_trim_start_of_end(s: Seq<char>)
    requires
        !(s.len() > 0 && is_white_space(s[0])),
    ensures
        trim_start(trim_end(s)) == trim_end(s),
    decreases s.len(),
{
    if s.len() > 0 && is_white_space(s.last()) {
        if s.len() > 1 {
            assert(s.drop_last()[0] == s[0]);
        }
        lemma_trim_start_of_end(s.drop_last());
    }
}

/// Whether the code point `n` lies in one of the ranges that hold no
/// White_Space character at all: visible ASCII, the rest of Latin-1 but for
/// U+0085 and U+00A0, and everything else outside the spaces U+1680,
/// U+2000-U+200A, U+2028, U+2029, U+202F, U+205F and U+3000. Among them:
/// letters, digits, quotes, dashes, the ellipsis, zero-width characters.
pub open spec fn surely_not_space(n: u32) -> bool {
    ||| 0x21 <= n <= 0x84
    ||| 0x86 <= n <= 0x9F
    ||| 0xA1 <= n <= 0x167F
    ||| 0x1681 <= n <= 0x1FFF
    ||| 0x200B <= n <= 0x2027
    ||| 0x202A <= n <= 0x202E
    ||| 0x2030 <= n <= 0x205E
    ||| 0x2060 <= n <= 0x2FFF
    ||| 0x3001 <= n
}

/// Trimming removes only White_Space: a string that begins and ends with
/// characters that are surely not spaces is left as it is.
pub proof fn trim_keeps_visible_ends(s: Seq<char>)
    requires
        s.len() > 0,
        surely_not_space(s[0] as u32),
        surely_not_space(s.last() as u32),
    ensures
        trimmed(s) == s,
{
}

/// Every White_Space character at either end goes: trimming a string with
/// one more space (tab, newline, space, no-break space, ideographic space,
/// ...) on either side gives the same as trimming the string.
pub proof fn trim_drops_end_spaces(s: Seq<char>, c: char)
    requires
        (9 <= c as u32 <= 13) || c as u32 == 32 || c as u32 == 0x85 || c as u32 == 0xA0 || c as u32
            == 0x1680 || (0x2000 <= c as u32 <= 0x200A) || c as u32 == 0x2028 || c as u32 == 0x2029
            || c as u32 == 0x202F || c as u32 == 0x205F || c as u32 == 0x3000,
    ensures
        trimmed(seq![c] + s) == trimmed(s),
        trimmed(s.push(c)) == trimmed(s),
{
    assert((seq![c] + s).drop_first() =~= s);
    assert(s.push(c).drop_last() =~= s);
    lemma_trim_end_of_push(s, c);
    lemma_trim_start_push(s, c);
}

proof fn lemma_trim_end_of_push(s: Seq<char>, c: char)
    requires
        is_white_space(c),
    ensures
        trim_end(s.push(c)) == trim_end(s),
{
    assert(s.push(c).drop_last() =~= s);
}

/// Trimming the start of `s` with a White_Space character pushed at its end:
/// the space either stays at the end of what remains, or everything goes.
proof fn lemma_trim_start_push(s: Seq<char>, c: char)
    requires
        is_white_space(c),
    ensures
        trim_end(trim_start(s.push(c))) == trim_end(trim_start(s)),
    decreases s.len(),
{
    if s.len() > 0 && is_white_space(s[0]) {
        assert(s.push(c)[0] == s[0]);
        assert(s.push(c).drop_first() =~= s.drop_first().push(c));
        lemma_trim_start_push(s.drop_first(), c);
        assert(trim_start(s.push(c)) == trim_start(s.drop_first().push(c)));
        assert(trim_start(s) == trim_start(s.drop_first()));
    } else if s.len() > 0 {
        assert(s.push(c)[0] == s[0]);
        lemma_trim_end_of_push(s, c);
    } else {
        assert(s.push(c) =~= seq![c]);
        assert(seq![c].drop_first() =~= Seq::<char>::empty());
        assert(trim_start(Seq::<char>::empty()) =~= Seq::<char>::empty());
        assert(trim_start(seq![c]) == trim_start(seq![c].drop_first()));
        assert(trim_end(Seq::<char>::empty()) =~= Seq::<char>::empty());
        assert(s =~= Seq::<char>::empty());
    }
}

/// `s` without leading and trailing White_Space, as `str::trim` gives it.
pub fn trim_chars(s: &Vec<char>) -> (out: Vec<char>)
    ensures
        out@ == trimmed(s@),
{
    let n = s.len();
    let mut a: usize = 0;
    while a < n && white_space(s[a])
        invariant
            n == s@.len(),
            a <= n,
            forall|j: int| 0 <= j < a ==> is_white_space(#[trigger] s@[j]),
        decreases n - a,
    {
        a = a + 1;
    }
    proof {
        lemma_trim_start_skip(s@, a as int);
        if a < n {
            assert(s@.skip(a as int)[0] == s@[a as int]);
        }
        assert(trim_start(s@.skip(a as int)) == s@.skip(a as int));
    }
    let mut b: usize = n;
    while b > a && white_space(s[b - 1])
        invariant
            n == s@.len(),
            a <= b <= n,
            forall|j: int| b <= j < n ==> is_white_space(#[trigger] s@[j]),
        decreases b,
    {
        b = b - 1;
    }
    proof {
        let t = s@.skip(a as int);
        let k = b - a;
        assert forall|j: int| k <= j < t.len() implies is_white_space(#[trigger] t[j]) by {
            assert(t[j] == s@[a + j]);
        }
        lemma_trim_end_take(t, k as int);
        assert(t.take(k as int) =~= s@.subrange(a as int, b as int));
        if k > 0 {
            assert(t.take(k as int).last() == s@[b - 1]);
        }
        assert(trim_end(t.take(k as int)) == t.take(k as int));
    }
    chars_between(s, a, b)
}

} // verus!
