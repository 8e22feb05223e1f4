//! Text primitives, stated over sequences of characters.

use vstd::prelude::*;
use vstd::string::*;

verus! {

/// The characters of a string, in order.
pub fn chars_of(s: &str) -> (v: Vec<char>)
    ensures
        v@ == s@,
{
    let mut v: Vec<char> = Vec::new();
    for c in it: s.chars()
        invariant
            it.seq() == s@,
            v@ == s@.take(it.index() as int),
    {
        v.push(c);
    }
    assert(s@.take(s@.len() as int) == s@);
    v
}

/// The character that writes the decimal digit `d`.
pub open spec fn digit_char(d: nat) -> char {
    (0x30 + d) as char
}

/// The decimal notation of a number, without leading zeros.
pub open spec fn decimal(n: nat) -> Seq<char>
    decreases n,
{
    if n < 10 {
        seq![digit_char(n)]
    } else {
        decimal(n / 10).push(digit_char(n % 10))
    }
}

/// Appends one decimal digit.
fn push_digit(out: &mut String, d: u64)
    requires
        d < 10,
    ensures
        final(out)@ == old(out)@.push(digit_char(d as nat)),
{
    proof {
        reveal_strlit("0123456789");
    }
    let digits: &str = "0123456789";
    let at: usize = d as usize;
    let one = digits.substring_char(at, at + 1);
    out.append(one);
    assert(one@ == seq![digit_char(d as nat)]);
    assert(out@ == old(out)@.push(digit_char(d as nat)));
}

/// Appends the decimal notation of `n`.
pub fn push_decimal(out: &mut String, n: u64)
    ensures
        final(out)@ == old(out)@ + decimal(n as nat),
    decreases n,
{
    if n >= 10 {
        push_decimal(out, n / 10);
    }
    push_digit(out, n % 10);
    assert(out@ == old(out)@ + decimal(n as nat));
}

/// The decimal notation of `n` as a string.
pub fn to_decimal(n: u64) -> (r: String)
    ensures
        r@ == decimal(n as nat),
{
    let mut out = String::new();
    push_decimal(&mut out, n);
    out
}

/// `n` zeros.
pub open spec fn zeros(n: nat) -> Seq<char> {
    Seq::new(n, |i: int| '0')
}

/// The decimal notation of `n`, filled up with zeros on the left to `width` characters.
pub open spec fn padded(n: nat, width: nat) -> Seq<char> {
    if decimal(n).len() < width {
        zeros((width - decimal(n).len()) as nat) + decimal(n)
    } else {
        decimal(n)
    }
}

/// Appends the decimal notation of `n`, filled up with zeros on the left to `width` characters.
pub fn push_padded(out: &mut String, n: u64, width: usize)
    ensures
        final(out)@ == old(out)@ + padded(n as nat, width as nat),
{
    let digits = to_decimal(n);
    let len: usize = digits.as_str().unicode_len();
    let ghost before = out@;
    if len < width {
        let missing: usize = width - len;
        let mut i: usize = 0;
        while i < missing
            invariant
                i <= missing,
                out@ == before + zeros(i as nat),
            decreases missing - i,
        {
            push_digit(out, 0);
            i += 1;
            assert(out@ == before + zeros(i as nat));
        }
    }
    out.append(digits.as_str());
    assert(out@ == before + padded(n as nat, width as nat));
}

/// Whether two strings hold the same characters.
pub fn text_eq(a: &str, b: &str) -> (r: bool)
    ensures
        r == (a@ == b@),
{
    a.to_owned() == b.to_owned()
}

/// Whether `p` stands in `s` at position `i`.
pub open spec fn occurs_at(s: Seq<char>, p: Seq<char>, i: int) -> bool {
    0 <= i && i + p.len() <= s.len() && s.subrange(i, i + p.len()) == p
}

/// Whether `p` stands anywhere in `s`.
pub open spec fn occurs(s: Seq<char>, p: Seq<char>) -> bool {
    exists|i: int| occurs_at(s, p, i)
}

/// The first position, from `from` on, at which `p` stands in `s`.
pub open spec fn position_from(s: Seq<char>, p: Seq<char>, from: int) -> Option<int>
    decreases s.len() + 1 - from,
{
    if from + p.len() > s.len() {
        None
    } else if occurs_at(s, p, from) {
        Some(from)
    } else {
        position_from(s, p, from + 1)
    }
}

/// The first position at which `p` stands in `s`.
pub open spec fn position(s: Seq<char>, p: Seq<char>) -> Option<int> {
    position_from(s, p, 0)
}

/// `position_from` finds an occurrence, the first one, wherever there is one.
pub proof fn position_from_is_first(s: Seq<char>, p: Seq<char>, from: int)
    requires
        0 <= from,
    ensures
        match position_from(s, p, from) {
            Some(i) => from <= i && occurs_at(s, p, i) && forall|j: int|
                from <= j < i ==> !occurs_at(s, p, j),
            None => forall|j: int| from <= j ==> !occurs_at(s, p, j),
        },
    decreases s.len() + 1 - from,
{
    if from + p.len() <= s.len() && !occurs_at(s, p, from) {
        position_from_is_first(s, p, from + 1);
    }
}

/// Whether `p` stands in `s` at position `i`.
fn matches_at(s: &Vec<char>, p: &Vec<char>, i: usize) -> (r: bool)
    requires
        i + p@.len() <= s@.len(),
    ensures
        r == occurs_at(s@, p@, i as int),
{
    let n: usize = p.len();
    let m: usize = s.len();
    let mut k: usize = 0;
    while k < n
        invariant
            n == p@.len(),
            m == s@.len(),
            i + n <= m,
            k <= n,
            forall|j: int| 0 <= j < k ==> s@[i + j] == p@[j],
        decreases n - k,
    {
        if s[i + k] != p[k] {
            assert(s@.subrange(i as int, i + n)[k as int] != p@[k as int]);
            return false;
        }
        k += 1;
    }
    assert(s@.subrange(i as int, i + n) =~= p@);
    true
}

/// The first position at which `p` stands in `s`.
pub fn find(s: &str, p: &str) -> (r: Option<usize>)
    ensures
        match r {
            Some(i) => position(s@, p@) == Some(i as int) && i + p@.len() <= s@.len(),
            None => position(s@, p@) is None,
        },
{
    let hay = chars_of(s);
    let pat = chars_of(p);
    let n: usize = hay.len();
    let m: usize = pat.len();
    let mut i: usize = 0;
    while m <= n - i
        invariant
            hay@ == s@,
            pat@ == p@,
            n == hay@.len(),
            m == pat@.len(),
            i <= n,
            position(s@, p@) == position_from(s@, p@, i as int),
        decreases n - i,
    {
        if matches_at(&hay, &pat, i) {
            return Some(i);
        }
        assert(m > 0) by {
            if m == 0 {
                assert(s@.subrange(i as int, i as int) =~= p@);
            }
        }
        i += 1;
    }
    None
}

/// Whether `p` stands anywhere in `s`.
pub fn contains(s: &str, p: &str) -> (r: bool)
    ensures
        r == occurs(s@, p@),
{
    proof {
        position_from_is_first(s@, p@, 0);
    }
    match find(s, p) {
        Some(i) => {
            assert(occurs_at(s@, p@, i as int));
            true
        },
        None => false,
    }
}

/// Whether `s` begins with `p`.
pub fn starts_with(s: &str, p: &str) -> (r: bool)
    ensures
        r == p@.is_prefix_of(s@),
{
    let hay = chars_of(s);
    let pat = chars_of(p);
    pat.len() <= hay.len() && matches_at(&hay, &pat, 0)
}

/// Whether `s` ends with `p`.
pub fn ends_with(s: &str, p: &str) -> (r: bool)
    ensures
        r == p@.is_suffix_of(s@),
{
    let hay = chars_of(s);
    let pat = chars_of(p);
    pat.len() <= hay.len() && matches_at(&hay, &pat, hay.len() - pat.len())
}

/// What follows the last `c` in `s`; all of `s` where `c` does not occur.
pub open spec fn after_last(s: Seq<char>, c: char) -> Seq<char>
    decreases s.len(),
{
    if s.len() == 0 || s.last() == c {
        Seq::empty()
    } else {
        after_last(s.drop_last(), c).push(s.last())
    }
}

/// `after_last` is the part behind the last `c`.
pub proof fn after_last_is_suffix(s: Seq<char>, c: char, from: int)
    requires
        0 <= from <= s.len(),
        from == 0 || s[from - 1] == c,
        forall|j: int| from <= j < s.len() ==> s[j] != c,
    ensures
        after_last(s, c) == s.skip(from),
    decreases s.len(),
{
    if from < s.len() {
        after_last_is_suffix(s.drop_last(), c, from);
        assert(s.drop_last().skip(from).push(s.last()) =~= s.skip(from));
    } else {
        assert(s.skip(from) =~= Seq::<char>::empty());
    }
}

/// What follows the last `c` in `s`; all of `s` where `c` does not occur.
pub fn text_after_last(s: &str, c: char) -> (r: String)
    ensures
        r@ == after_last(s@, c),
{
    let v = chars_of(s);
    let n: usize = v.len();
    let mut from: usize = n;
    while from > 0 && v[from - 1] != c
        invariant
            v@ == s@,
            n == v@.len(),
            from <= n,
            forall|j: int| from <= j < n ==> v@[j] != c,
        decreases from,
    {
        from -= 1;
    }
    proof {
        after_last_is_suffix(s@, c, from as int);
    }
    s.substring_char(from, n).to_owned()
}

/// Whether a character has the Unicode property `White_Space`.
pub open spec fn is_white(c: char) -> bool {
    let u = c as u32;
    ||| 0x09 <= u <= 0x0d
    ||| u == 0x20
    ||| u == 0x85
    ||| u == 0xa0
    ||| u == 0x1680
    ||| 0x2000 <= u <= 0x200a
    ||| u == 0x2028
    ||| u == 0x2029
    ||| u == 0x202f
    ||| u == 0x205f
    ||| u == 0x3000
}

/// Whether a character has the Unicode property `White_Space`.
pub fn is_white_space(c: char) -> (r: bool)
    ensures
        r == is_white(c),
{
    let u: u32 = c as u32;
    (0x09 <= u && u <= 0x0d) || u == 0x20 || u == 0x85 || u == 0xa0 || u == 0x1680 || (0x2000 <= u
        && u <= 0x200a) || u == 0x2028 || u == 0x2029 || u == 0x202f || u == 0x205f || u == 0x3000
}

/// A set of characters that can be cut off at the ends of a string.
pub enum CharClass {
    /// One given character.
    Just(char),
    /// The characters with the Unicode property `White_Space`.
    White,
}

impl CharClass {
    /// Whether the class holds `c`.
    pub open spec fn holds(self, c: char) -> bool {
        match self {
            CharClass::Just(d) => c == d,
            CharClass::White => is_white(c),
        }
    }

    fn test(&self, c: char) -> (r: bool)
        ensures
            r == self.holds(c),
    {
        match self {
            CharClass::Just(d) => c == *d,
            CharClass::White => is_white_space(c),
        }
    }
}

/// `s` without the leading characters of `class`.
pub open spec fn trim_front(s: Seq<char>, class: CharClass) -> Seq<char>
    decreases s.len(),
{
    if s.len() > 0 && class.holds(s[0]) {
        trim_front(s.skip(1), class)
    } else {
        s
    }
}

/// `s` without the trailing characters of `class`.
pub open spec fn trim_back(s: Seq<char>, class: CharClass) -> Seq<char>
    decreases s.len(),
{
    if s.len() > 0 && class.holds(s.last()) {
        trim_back(s.drop_last(), class)
    } else {
        s
    }
}

/// `s` without the characters of `class` at either end.
pub open spec fn trimmed(s: Seq<char>, class: CharClass) -> Seq<char> {
    trim_back(trim_front(s, class), class)
}

proof fn trim_front_is_suffix(s: Seq<char>, class: CharClass, lo: int)
    requires
        0 <= lo <= s.len(),
        forall|j: int| 0 <= j < lo ==> class.holds(s[j]),
        lo < s.len() ==> !class.holds(s[lo]),
    ensures
        trim_front(s, class) == s.skip(lo),
    decreases lo,
{
    if lo > 0 {
        trim_front_is_suffix(s.skip(1), class, lo - 1);
        assert(s.skip(1).skip(lo - 1) =~= s.skip(lo));
    } else {
        assert(s.skip(0) =~= s);
    }
}

proof fn trim_back_is_prefix(s: Seq<char>, class: CharClass, hi: int)
    requires
        0 <= hi <= s.len(),
        forall|j: int| hi <= j < s.len() ==> class.holds(s[j]),
        hi > 0 ==> !class.holds(s[hi - 1]),
    ensures
        trim_back(s, class) == s.take(hi),
    decreases s.len(),
{
    if hi < s.len() {
        trim_back_is_prefix(s.drop_last(), class, hi);
        assert(s.drop_last().take(hi) =~= s.take(hi));
    } else {
        assert(s.take(hi) =~= s);
    }
}

/// `s` without the characters of `class` at either end.
pub fn trim(s: &str, class: CharClass) -> (r: String)
    ensures
        r@ == trimmed(s@, class),
{
    let v = chars_of(s);
    let n: usize = v.len();
    let mut lo: usize = 0;
    while lo < n && class.test(v[lo])
        invariant
            n == v@.len(),
            lo <= n,
            forall|j: int| 0 <= j < lo ==> class.holds(v@[j]),
        decreases n - lo,
    {
        lo += 1;
    }
    let mut hi: usize = n;
    while hi > lo && class.test(v[hi - 1])
        invariant
            n == v@.len(),
            lo <= hi <= n,
            forall|j: int| hi <= j < n ==> class.holds(v@[j]),
        decreases hi,
    {
        hi -= 1;
    }
    proof {
        trim_front_is_suffix(s@, class, lo as int);
        let rest = s@.skip(lo as int);
        trim_back_is_prefix(rest, class, hi - lo);
        assert(rest.take(hi - lo) =~= s@.subrange(lo as int, hi as int));
    }
    s.substring_char(lo, hi).to_owned()
}

/// The lower-case form of an ASCII letter; any other character itself.
pub open spec fn ascii_lower(c: char) -> char {
    if 'A' <= c <= 'Z' {
        (c as u32 + 32) as char
    } else {
        c
    }
}

/// Whether two texts agree up to the case of ASCII letters.
pub open spec fn same_ignoring_case(a: Seq<char>, b: Seq<char>) -> bool {
    a.len() == b.len() && forall|i: int| 0 <= i < a.len() ==> ascii_lower(a[i]) == ascii_lower(b[i])
}

fn lower_code(c: char) -> (r: u32)
    ensures
        r == ascii_lower(c) as u32,
{
    let u: u32 = c as u32;
    if 0x41 <= u && u <= 0x5a {
        u + 32
    } else {
        u
    }
}

/// Whether two texts agree up to the case of ASCII letters.
pub fn eq_ignore_ascii_case(a: &str, b: &str) -> (r: bool)
    ensures
        r == same_ignoring_case(a@, b@),
{
    let x = chars_of(a);
    let y = chars_of(b);
    if x.len() != y.len() {
        return false;
    }
    let n: usize = x.len();
    let mut i: usize = 0;
    while i < n
        invariant
            x@ == a@,
            y@ == b@,
            n == x@.len(),
            n == y@.len(),
            i <= n,
            forall|j: int| 0 <= j < i ==> ascii_lower(a@[j]) == ascii_lower(b@[j]),
        decreases n - i,
    {
        if lower_code(x[i]) != lower_code(y[i]) {
            assert(ascii_lower(a@[i as int]) != ascii_lower(b@[i as int]));
            return false;
        }
        assert(ascii_lower(a@[i as int]) == ascii_lower(b@[i as int]));
        i += 1;
    }
    true
}

/// Whether a text is a non-empty run of decimal digits.
pub open spec fn all_digits(s: Seq<char>) -> bool {
    s.len() > 0 && forall|i: int| 0 <= i < s.len() ==> '0' <= #[trigger] s[i] <= '9'
}

/// The number that a run of decimal digits writes.
pub open spec fn digits_value(s: Seq<char>) -> nat
    decreases s.len(),
{
    if s.len() == 0 {
        0
    } else {
        digits_value(s.drop_last()) * 10 + (s.last() as u32 - 0x30) as nat
    }
}

/// A text without one leading plus sign.
pub open spec fn without_plus(s: Seq<char>) -> Seq<char> {
    if s.len() > 0 && s[0] == '+' {
        s.skip(1)
    } else {
        s
    }
}

/// The 64-bit number that a text writes: an optional plus sign and decimal digits.
pub open spec fn unsigned(s: Seq<char>) -> Option<u64> {
    let body = without_plus(s);
    if all_digits(body) && digits_value(body) <= u64::MAX {
        Some(digits_value(body) as u64)
    } else {
        None
    }
}

proof fn digits_value_grows(s: Seq<char>, n: int)
    requires
        0 <= n <= s.len(),
    ensures
        digits_value(s.take(n)) <= digits_value(s),
    decreases s.len(),
{
    if n < s.len() {
        digits_value_grows(s.drop_last(), n);
        assert(s.drop_last().take(n) =~= s.take(n));
    } else {
        assert(s.take(n) =~= s);
    }
}

/// The value of a decimal digit.
fn digit_of(c: char) -> (r: Option<u64>)
    ensures
        r == (if '0' <= c <= '9' {
            Some((c as u32 - 0x30) as u64)
        } else {
            None
        }),
{
    let u: u32 = c as u32;
    if 0x30 <= u && u <= 0x39 {
        Some((u - 0x30) as u64)
    } else {
        None
    }
}

/// Reads a 64-bit number: an optional plus sign and decimal digits, nothing else.
pub fn parse_u64(s: &str) -> (r: Option<u64>)
    ensures
        r == unsigned(s@),
{
    let v = chars_of(s);
    let n: usize = v.len();
    let from: usize = if n > 0 && v[0] == '+' {
        1
    } else {
        0
    };
    let ghost body = without_plus(s@);
    assert(body =~= s@.skip(from as int));
    if from == n {
        return None;
    }
    let mut value: u64 = 0;
    let mut i: usize = from;
    assert(body.take(0) =~= Seq::<char>::empty());
    while i < n
        invariant
            v@ == s@,
            n == v@.len(),
            from < n,
            from <= i <= n,
            body == s@.skip(from as int),
            body == without_plus(s@),
            forall|j: int| 0 <= j < i - from ==> '0' <= #[trigger] body[j] <= '9',
            value == digits_value(body.take(i - from)),
        decreases n - i,
    {
        assert(body[i - from] == v@[i as int]);
        let d: u64 = match digit_of(v[i]) {
            Some(d) => d,
            None => {
                assert(!all_digits(body));
                return None;
            },
        };
        proof {
            let next = body.take(i - from + 1);
            assert(next.drop_last() =~= body.take(i - from));
            assert(next.last() == v@[i as int]);
            assert(digits_value(next) == value * 10 + d);
            digits_value_grows(body, i - from + 1);
        }
        if value > (u64::MAX - d) / 10 {
            return None;
        }
        value = value * 10 + d;
        i += 1;
    }
    assert(body.take(n - from) =~= body);
    Some(value)
}

/// The decimal notation of a number is a run of digits.
pub proof fn decimal_is_digits(n: nat)
    ensures
        all_digits(decimal(n)),
        digits_value(decimal(n)) == n,
    decreases n,
{
    if n >= 10 {
        decimal_is_digits(n / 10);
        assert(decimal(n).drop_last() =~= decimal(n / 10));
    } else {
        assert(decimal(n).drop_last() =~= Seq::<char>::empty());
        assert(digits_value(Seq::<char>::empty()) == 0);
    }
}

/// Leading zeros do not change the number that is written.
pub proof fn padding_keeps_value(n: nat, width: nat)
    ensures
        all_digits(padded(n, width)),
        digits_value(padded(n, width)) == n,
{
    decimal_is_digits(n);
    if decimal(n).len() < width {
        leading_zeros((width - decimal(n).len()) as nat, decimal(n));
    }
}

proof fn leading_zeros(k: nat, s: Seq<char>)
    ensures
        digits_value(zeros(k) + s) == digits_value(s),
    decreases s.len(), k,
{
    if s.len() > 0 {
        leading_zeros(k, s.drop_last());
        assert((zeros(k) + s).drop_last() =~= zeros(k) + s.drop_last());
    } else if k > 0 {
        leading_zeros((k - 1) as nat, s);
        assert((zeros(k) + s).drop_last() =~= zeros((k - 1) as nat) + s);
        assert((zeros(k) + s).last() == '0');
    } else {
        assert(zeros(k) + s =~= s);
    }
}

/// Reading back the decimal notation of a number gives the number.
pub proof fn decimal_reads_back(n: u64)
    ensures
        unsigned(decimal(n as nat)) == Some(n),
{
    decimal_is_digits(n as nat);
    assert(decimal(n as nat)[0] != '+');
}

/// A text of at most `max` characters: a longer one is cut to `max - 1` and closed by an ellipsis.
pub open spec fn ellipsized(s: Seq<char>, max: nat) -> Seq<char> {
    if s.len() > max {
        s.take(max - 1).push('\u{2026}')
    } else {
        s
    }
}

/// Cuts a text down to `max` characters, the last of them an ellipsis where something was cut.
pub fn ellipsize(s: &str, max: usize) -> (r: String)
    requires
        max > 0,
    ensures
        r@ == ellipsized(s@, max as nat),
{
    let n: usize = s.unicode_len();
    if n > max {
        let mut out = s.substring_char(0, max - 1).to_owned();
        proof {
            reveal_strlit("\u{2026}");
        }
        out.append("\u{2026}");
        assert(out@ =~= ellipsized(s@, max as nat));
        out
    } else {
        s.to_owned()
    }
}

/// The decimal notation of a number does not begin with a zero, but for that of zero itself; a
/// number below ten has one digit, and each factor of ten is one digit more.
pub proof fn decimal_has_no_leading_zero(n: nat)
    ensures
        decimal(n).len() > 0,
        n > 0 ==> decimal(n)[0] != '0',
        n == 0 ==> decimal(n) == seq!['0'],
        n < 10 ==> decimal(n).len() == 1,
        n >= 10 ==> decimal(n).len() == decimal(n / 10).len() + 1,
    decreases n,
{
    if n >= 10 {
        decimal_has_no_leading_zero(n / 10);
        assert(decimal(n)[0] == decimal(n / 10)[0]);
    }
}

/// A digit behind a run of digits makes ten times its number and the digit.
pub proof fn digit_behind_counts_tenfold(s: Seq<char>, d: nat)
    requires
        d < 10,
    ensures
        digits_value(Seq::empty()) == 0,
        digits_value(s.push((0x30 + d) as char)) == 10 * digits_value(s) + d,
{
    assert(s.push((0x30 + d) as char).drop_last() =~= s);
}

/// A number that is filled up is as wide as is asked for, or as wide as it is, whichever is more:
/// it ends in its decimal notation, and nothing but zeros stands in front.
pub proof fn padding_fills_up(n: nat, width: nat)
    ensures
        ({
            let s = padded(n, width);
            let digits = decimal(n);
            &&& digits.len() <= width ==> s.len() == width
            &&& digits.len() > width ==> s == digits
            &&& s.skip(s.len() - digits.len()) == digits
            &&& forall|i: int| 0 <= i < s.len() - digits.len() ==> #[trigger] s[i] == '0'
        }),
{
    let s = padded(n, width);
    assert(s.skip(s.len() - decimal(n).len()) =~= decimal(n));
}

/// Two digits write every number below a hundred.
pub proof fn two_digits_suffice(n: nat)
    requires
        n < 100,
    ensures
        padded(n, 2).len() == 2,
{
    decimal_has_no_leading_zero(n);
    decimal_has_no_leading_zero(n / 10);
}

/// Cutting off leaves exactly what stands between the characters of the class at the two ends.
pub proof fn trimming_leaves_the_core(
    lead: Seq<char>,
    core: Seq<char>,
    tail: Seq<char>,
    class: CharClass,
)
    requires
        forall|i: int| 0 <= i < lead.len() ==> class.holds(#[trigger] lead[i]),
        forall|i: int| 0 <= i < tail.len() ==> class.holds(#[trigger] tail[i]),
        core.len() > 0 ==> !class.holds(core[0]) && !class.holds(core.last()),
    ensures
        trimmed(lead + core + tail, class) == core,
{
    let s = lead + core + tail;
    if core.len() > 0 {
        let rest = core + tail;
        assert forall|j: int| 0 <= j < lead.len() implies class.holds(s[j]) by {
            assert(s[j] == lead[j]);
        }
        assert(s[lead.len() as int] == core[0]);
        trim_front_is_suffix(s, class, lead.len() as int);
        assert(s.skip(lead.len() as int) =~= rest);
        assert forall|j: int| core.len() <= j < rest.len() implies class.holds(rest[j]) by {
            assert(rest[j] == tail[j - core.len()]);
        }
        assert(rest[core.len() - 1] == core.last());
        trim_back_is_prefix(rest, class, core.len() as int);
        assert(rest.take(core.len() as int) =~= core);
    } else {
        assert forall|j: int| 0 <= j < s.len() implies class.holds(s[j]) by {
            if j < lead.len() {
                assert(s[j] == lead[j]);
            } else {
                assert(s[j] == tail[j - lead.len()]);
            }
        }
        trim_front_is_suffix(s, class, s.len() as int);
        assert(s.skip(s.len() as int) =~= Seq::<char>::empty());
        assert(core =~= Seq::<char>::empty());
    }
}

/// Of the ASCII characters the space and those from the tab to the carriage return are white, and
/// a class of one character holds that one alone.
pub proof fn classes_hold_their_characters(c: char, d: char)
    ensures
        c <= '\u{7f}' ==> (CharClass::White.holds(c) <==> c == ' ' || c == '\t' || c == '\n' || c
            == '\r' || c == '\u{b}' || c == '\u{c}'),
        CharClass::White.holds('\u{3000}'),
        CharClass::White.holds('\u{a0}'),
        CharClass::Just(d).holds(c) <==> c == d,
{
}

/// White space is twenty-five characters and no other.
pub proof fn white_characters(c: char)
    ensures
        is_white(c) <==> seq![
            '\t',
            '\n',
            '\u{b}',
            '\u{c}',
            '\r',
            ' ',
            '\u{85}',
            '\u{a0}',
            '\u{1680}',
            '\u{2000}',
            '\u{2001}',
            '\u{2002}',
            '\u{2003}',
            '\u{2004}',
            '\u{2005}',
            '\u{2006}',
            '\u{2007}',
            '\u{2008}',
            '\u{2009}',
            '\u{200a}',
            '\u{2028}',
            '\u{2029}',
            '\u{202f}',
            '\u{205f}',
            '\u{3000}',
        ].contains(c),
{
    let all = seq![
        '\t',
        '\n',
        '\u{b}',
        '\u{c}',
        '\r',
        ' ',
        '\u{85}',
        '\u{a0}',
        '\u{1680}',
        '\u{2000}',
        '\u{2001}',
        '\u{2002}',
        '\u{2003}',
        '\u{2004}',
        '\u{2005}',
        '\u{2006}',
        '\u{2007}',
        '\u{2008}',
        '\u{2009}',
        '\u{200a}',
        '\u{2028}',
        '\u{2029}',
        '\u{202f}',
        '\u{205f}',
        '\u{3000}',
    ];
    let u = c as u32;
    if 0x09 <= u <= 0x0d {
        assert(all[u - 0x09] == c);
    }
    if 0x2000 <= u <= 0x200a {
        assert(all[u - 0x2000 + 9] == c);
    }
    assert(all[5] == ' ' && all[6] == '\u{85}' && all[7] == '\u{a0}' && all[8] == '\u{1680}');
    assert(all[20] == '\u{2028}' && all[21] == '\u{2029}' && all[22] == '\u{202f}');
    assert(all[23] == '\u{205f}' && all[24] == '\u{3000}');
}

/// Only the case of ASCII letters is disregarded: a capital agrees with itself and with the small
/// letter at the same place of the alphabet, any other character with itself alone, small letters
/// apart.
pub proof fn only_the_case_is_disregarded(k: u32, c: char)
    ensures
        k < 26 ==> ascii_lower((0x41 + k) as char) == (0x61 + k) as char && ascii_lower(
            (0x61 + k) as char,
        ) == (0x61 + k) as char,
        !('A' <= c <= 'Z') ==> ascii_lower(c) == c,
        same_ignoring_case(seq![c], seq![c]),
{
}

/// Agreement up to case goes character by character: texts of different lengths do not agree, and
/// two texts agree with two others behind one another where each does.
pub proof fn agreement_goes_by_character(
    a: Seq<char>,
    b: Seq<char>,
    c: Seq<char>,
    d: Seq<char>,
)
    ensures
        a.len() != b.len() ==> !same_ignoring_case(a, b),
        same_ignoring_case(a, a),
        same_ignoring_case(a, b) == same_ignoring_case(b, a),
        a.len() == b.len() ==> (same_ignoring_case(a + c, b + d) <==> same_ignoring_case(a, b)
            && same_ignoring_case(c, d)),
{
    if a.len() == b.len() {
        if same_ignoring_case(a + c, b + d) {
            assert forall|i: int| 0 <= i < a.len() implies ascii_lower(a[i]) == ascii_lower(
                b[i],
            ) by {
                assert(ascii_lower((a + c)[i]) == ascii_lower((b + d)[i]));
            }
            assert forall|i: int| 0 <= i < c.len() implies ascii_lower(c[i]) == ascii_lower(
                d[i],
            ) by {
                assert(ascii_lower((a + c)[a.len() + i]) == ascii_lower((b + d)[a.len() + i]));
            }
        }
    }
}

/// Reading takes exactly decimal digits, with one plus sign in front of them or none: the number
/// with leading zeros is read as well, with the sign it is the same number, and a text with
/// anything else in it, with no digit, or of a number that is too large is refused.
pub proof fn only_numbers_are_read(n: u64, width: nat, s: Seq<char>, i: int)
    ensures
        unsigned(padded(n as nat, width)) == Some(n),
        unsigned(seq!['+'] + padded(n as nat, width)) == Some(n),
        unsigned(Seq::empty()) is None,
        unsigned(seq!['+']) is None,
        0 < i < s.len() && !('0' <= s[i] <= '9') ==> unsigned(s) is None,
        s.len() > 0 && s[0] != '+' && !('0' <= s[0] <= '9') ==> unsigned(s) is None,
        all_digits(s) && digits_value(s) > u64::MAX ==> unsigned(s) is None,
{
    let p = padded(n as nat, width);
    padding_keeps_value(n as nat, width);
    assert('0' <= p[0] <= '9');
    assert(without_plus(p) == p);
    assert(without_plus(seq!['+'] + p) =~= p);
    assert(without_plus(seq!['+']) =~= Seq::<char>::empty());
    if 0 < i < s.len() && !('0' <= s[i] <= '9') {
        if s[0] == '+' {
            assert(without_plus(s)[i - 1] == s[i]);
        } else {
            assert(without_plus(s)[i] == s[i]);
        }
    }
    if s.len() > 0 && s[0] != '+' && !('0' <= s[0] <= '9') {
        assert(without_plus(s)[0] == s[0]);
    }
    if all_digits(s) {
        assert('0' <= s[0] <= '9');
    }
}

/// A text that is short enough is left alone; a longer one becomes as long as it may be: its
/// beginning, and an ellipsis in place of the rest.
pub proof fn cut_text_keeps_its_beginning(s: Seq<char>, max: nat)
    requires
        max > 0,
    ensures
        s.len() <= max ==> ellipsized(s, max) == s,
        s.len() > max ==> {
            let cut = ellipsized(s, max);
            &&& cut.len() == max
            &&& cut.last() == '\u{2026}'
            &&& forall|i: int| 0 <= i < max - 1 ==> #[trigger] cut[i] == s[i]
        },
{
}

/// A text is found at once where it stands first: behind a text that it does not begin in.
pub proof fn first_occurrence_is_found(
    front: Seq<char>,
    start: Seq<char>,
    end: char,
    rest: Seq<char>,
)
    requires
        !occurs(front + start, start.push(end)),
    ensures
        position(front + start.push(end) + rest, start.push(end)) == Some(front.len() as int),
{
    let p = start.push(end);
    let s = front + p + rest;
    let short = front + start;
    let at = front.len() as int;
    position_from_is_first(s, p, 0);
    assert(s.subrange(at, at + p.len()) =~= p);
    assert(occurs_at(s, p, at));
    assert forall|i: int| 0 <= i < at implies !occurs_at(s, p, i) by {
        if occurs_at(s, p, i) {
            assert(s.subrange(i, i + p.len()) =~= short.subrange(i, i + p.len()));
            assert(occurs_at(short, p, i));
        }
    }
}

} // verus!
