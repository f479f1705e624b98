use vstd::prelude::*;
use vstd::string::StrSliceExecFns;
use vstd::string::StringExecFns;

verus! {

/// Whether std counts a character as alphabetic or numeric (Unicode rules).
pub uninterp spec fn alphanumeric(c: char) -> bool;

/// Relies on `char::is_alphanumeric`: true for characters that are
/// alphabetic or numeric in Unicode, which includes the ASCII letters and
/// digits and excludes `-`.
#[verifier::external_body]
pub(crate) fn char_is_alphanumeric(c: char) -> (r: bool)
    ensures
        r == alphanumeric(c),
        ('a' <= c <= 'z' || 'A' <= c <= 'Z' || '0' <= c <= '9') ==> r,
        c == '-' ==> !r,
{
    c.is_alphanumeric()
}

/// A subdomain is non-empty, made of alphanumeric characters and hyphens,
/// and neither starts nor ends with a hyphen.
pub open spec fn valid_subdomain(s: Seq<char>) -> bool {
    &&& s.len() > 0
    &&& forall|i: int| 0 <= i < s.len() ==> (alphanumeric(#[trigger] s[i]) || s[i] == '-')
    &&& s[0] != '-'
    &&& s[s.len() - 1] != '-'
}

/// Whether `subdomain` may name a tenant.
pub fn is_valid_subdomain(subdomain: &str) -> (r: bool)
    ensures
        r == valid_subdomain(subdomain@),
{
    let n = subdomain.unicode_len();
    if n == 0 {
        return false;
    }
    let mut i: usize = 0;
    while i < n
        invariant
            n == subdomain@.len(),
            i <= n,
            forall|j: int| 0 <= j < i ==> (alphanumeric(#[trigger] subdomain@[j]) || subdomain@[j] == '-'),
        decreases n - i,
    {
        let c = subdomain.get_char(i);
        if !(char_is_alphanumeric(c) || c == '-') {
            return false;
        }
        i += 1;
    }
    subdomain.get_char(0) != '-' && subdomain.get_char(n - 1) != '-'
}

/// Whether `c` occurs in `s`.
pub open spec fn has_char(s: Seq<char>, c: char) -> bool {
    exists|i: int| 0 <= i < s.len() && s[i] == c
}

/// Whether the text holds character `c`.
pub fn contains_char(s: &str, c: char) -> (r: bool)
    ensures
        r == has_char(s@, c),
{
    let n = s.unicode_len();
    let mut i: usize = 0;
    while i < n
        invariant
            n == s@.len(),
            i <= n,
            forall|j: int| 0 <= j < i ==> s@[j] != c,
        decreases n - i,
    {
        if s.get_char(i) == c {
            return true;
        }
        i += 1;
    }
    false
}

/// Basic email check: an `@` and a `.` somewhere.
pub fn is_valid_email(email: &str) -> (r: bool)
    ensures
        r == (has_char(email@, '@') && has_char(email@, '.')),
{
    contains_char(email, '@') && contains_char(email, '.')
}

/// The decimal digit for `d < 10`.
pub open spec fn digit_char(d: nat) -> char {
    if d == 0 { '0' }
    else if d == 1 { '1' }
    else if d == 2 { '2' }
    else if d == 3 { '3' }
    else if d == 4 { '4' }
    else if d == 5 { '5' }
    else if d == 6 { '6' }
    else if d == 7 { '7' }
    else if d == 8 { '8' }
    else { '9' }
}

/// Decimal notation of a natural number, without leading zeros.
pub open spec fn decimal(n: nat) -> Seq<char>
    decreases n,
{
    if n < 10 {
        seq![digit_char(n)]
    } else {
        decimal(n / 10).push(digit_char(n % 10))
    }
}

fn digit_text(d: u64) -> (r: &'static str)
    requires
        d < 10,
    ensures
        r@ == seq![digit_char(d as nat)],
{
    if d == 0 { proof { reveal_strlit("0"); } assert("0"@ =~= seq!['0']); "0" }
    else if d == 1 { proof { reveal_strlit("1"); } assert("1"@ =~= seq!['1']); "1" }
    else if d == 2 { proof { reveal_strlit("2"); } assert("2"@ =~= seq!['2']); "2" }
    else if d == 3 { proof { reveal_strlit("3"); } assert("3"@ =~= seq!['3']); "3" }
    else if d == 4 { proof { reveal_strlit("4"); } assert("4"@ =~= seq!['4']); "4" }
    else if d == 5 { proof { reveal_strlit("5"); } assert("5"@ =~= seq!['5']); "5" }
    else if d == 6 { proof { reveal_strlit("6"); } assert("6"@ =~= seq!['6']); "6" }
    else if d == 7 { proof { reveal_strlit("7"); } assert("7"@ =~= seq!['7']); "7" }
    else if d == 8 { proof { reveal_strlit("8"); } assert("8"@ =~= seq!['8']); "8" }
    else { proof { reveal_strlit("9"); } assert("9"@ =~= seq!['9']); "9" }
}

/// Appends the decimal notation of `n` to `out`.
pub fn push_decimal(out: &mut String, n: u64)
    ensures
        final(out)@ == old(out)@ + decimal(n as nat),
    decreases n,
{
    if n < 10 {
        out.append(digit_text(n));
    } else {
        push_decimal(out, n / 10);
        out.append(digit_text(n % 10));
        assert(decimal(n as nat) == decimal((n / 10) as nat).push(digit_char((n % 10) as nat)));
        assert(old(out)@ + decimal(n as nat) =~= old(out)@ + decimal((n / 10) as nat) + seq![digit_char((n % 10) as nat)]);
    }
}

/// An identifier made of a prefix, an underscore and a timestamp.
pub open spec fn id_text(prefix: Seq<char>, now: nat) -> Seq<char> {
    prefix + seq!['_'] + decimal(now)
}

/// Builds an identifier from `prefix` and the current time `now`.
pub fn generate_id(prefix: &str, now: u64) -> (r: String)
    ensures
        r@ == id_text(prefix@, now as nat),
{
    let mut r = String::from_str(prefix);
    proof { reveal_strlit("_"); }
    assert("_"@ =~= seq!['_']);
    r.append("_");
    push_decimal(&mut r, now);
    r
}

/// The id of the grade recorded at time `now` as the `n`-th of its tenant.
pub open spec fn new_grade_id(now: nat, n: nat) -> Seq<char> {
    id_text("grade"@, now) + seq!['_'] + decimal(n)
}

/// A decimal digit.
pub open spec fn is_digit(c: char) -> bool {
    '0' <= c <= '9'
}

/// Decimal notation is non-empty and made of digits.
pub proof fn lemma_decimal_digits(n: nat)
    ensures
        decimal(n).len() >= 1,
        forall|i: int| 0 <= i < decimal(n).len() ==> is_digit(#[trigger] decimal(n)[i]),
    decreases n,
{
    if n >= 10 {
        lemma_decimal_digits(n / 10);
        let d = decimal(n / 10);
        assert forall|i: int| 0 <= i < decimal(n).len() implies is_digit(#[trigger] decimal(n)[i]) by {
            if i < d.len() {
                assert(decimal(n)[i] == d[i]);
            }
        }
    }
}

/// Different numbers have different decimal notations.
pub proof fn lemma_decimal_injective(a: nat, b: nat)
    requires
        decimal(a) == decimal(b),
    ensures
        a == b,
    decreases a,
{
    if a < 10 && b < 10 {
        assert(decimal(a) == seq![digit_char(a)]);
        assert(decimal(b) == seq![digit_char(b)]);
        assert(decimal(a)[0] == decimal(b)[0]);
        assert(seq![digit_char(a)][0] == digit_char(a));
        assert(seq![digit_char(b)][0] == digit_char(b));
        lemma_digit_injective(a, b);
    } else if a < 10 {
        lemma_decimal_digits(b / 10);
        assert(decimal(b).len() >= 2);
    } else if b < 10 {
        lemma_decimal_digits(a / 10);
        assert(decimal(a).len() >= 2);
    } else {
        assert(decimal(a) == decimal(a / 10).push(digit_char(a % 10)));
        assert(decimal(b) == decimal(b / 10).push(digit_char(b % 10)));
        assert(decimal(a).last() == decimal(b).last());
        assert(decimal(a / 10).push(digit_char(a % 10)).last() == digit_char(a % 10));
        assert(decimal(b / 10).push(digit_char(b % 10)).last() == digit_char(b % 10));
        assert(decimal(a).drop_last() =~= decimal(a / 10));
        assert(decimal(b).drop_last() =~= decimal(b / 10));
        lemma_decimal_injective(a / 10, b / 10);
        lemma_digit_injective(a % 10, b % 10);
        assert(a == (a / 10) * 10 + a % 10);
        assert(b == (b / 10) * 10 + b % 10);
    }
}

/// Different digits have different characters.
proof fn lemma_digit_injective(x: nat, y: nat)
    requires
        x < 10,
        y < 10,
        digit_char(x) == digit_char(y),
    ensures
        x == y,
{
    assert(x == 0 || x == 1 || x == 2 || x == 3 || x == 4 || x == 5 || x == 6 || x == 7 || x == 8 || x == 9);
    assert(y == 0 || y == 1 || y == 2 || y == 3 || y == 4 || y == 5 || y == 6 || y == 7 || y == 8 || y == 9);
}

/// Two generated grade ids are equal only for the same number: the digits
/// after the last underscore give it away.
pub proof fn lemma_grade_id_injective(t1: nat, k1: nat, t2: nat, k2: nat)
    requires
        new_grade_id(t1, k1) == new_grade_id(t2, k2),
    ensures
        k1 == k2,
{
    let head1 = id_text("grade"@, t1) + seq!['_'];
    let head2 = id_text("grade"@, t2) + seq!['_'];
    let d1 = decimal(k1);
    let d2 = decimal(k2);
    let s = new_grade_id(t1, k1);
    assert(s =~= head1 + d1);
    assert(s =~= head2 + d2);
    lemma_decimal_digits(k1);
    lemma_decimal_digits(k2);
    if d1.len() < d2.len() {
        let i = s.len() - d1.len() - 1;
        assert(s[i] == head1[head1.len() - 1]);
        assert(s[i] == d2[i - head2.len()]);
        assert(is_digit(d2[i - head2.len()]));
    } else if d2.len() < d1.len() {
        let i = s.len() - d2.len() - 1;
        assert(s[i] == head2[head2.len() - 1]);
        assert(s[i] == d1[i - head1.len()]);
        assert(is_digit(d1[i - head1.len()]));
    } else {
        assert(d1 =~= s.subrange(head1.len() as int, s.len() as int));
        assert(d2 =~= s.subrange(head2.len() as int, s.len() as int));
        lemma_decimal_injective(k1, k2);
    }
}

/// `k` zero digits.
pub open spec fn zeros(k: nat) -> Seq<char> {
    Seq::new(k, |i: int| '0')
}

/// A digit code of exactly `length` characters drawn from the time `now`:
/// the leading digits of its decimal notation, padded with zeros.
pub open spec fn code_text(now: nat, length: nat) -> Seq<char> {
    let d = decimal(now);
    if length <= d.len() {
        d.take(length as int)
    } else {
        d + zeros((length - d.len()) as nat)
    }
}

/// Generates a verification code of `length` digits from the time `now`.
pub fn generate_random_string(length: usize, now: u64) -> (r: String)
    ensures
        r@ == code_text(now as nat, length as nat),
{
    let mut digits = String::new();
    push_decimal(&mut digits, now);
    assert(digits@ =~= decimal(now as nat));
    let n = digits.as_str().unicode_len();
    let k = if length < n { length } else { n };
    let mut r = String::from_str(digits.as_str().substring_char(0, k));
    let mut i: usize = k;
    proof { reveal_strlit("0"); }
    assert("0"@ =~= seq!['0']);
    while i < length
        invariant
            n == decimal(now as nat).len(),
            "0"@ == seq!['0'],
            k <= i <= length,
            k == (if length < n { length } else { n }),
            r@ == decimal(now as nat).take(k as int) + zeros((i - k) as nat),
        decreases length - i,
    {
        let ghost prev = r@;
        r.append("0");
        assert(r@ == prev + seq!['0']);
        assert(zeros((i - k) as nat).push('0') =~= zeros((i + 1 - k) as nat));
        assert(prev + seq!['0'] =~= decimal(now as nat).take(k as int) + zeros((i - k) as nat).push('0'));
        assert(r@ =~= decimal(now as nat).take(k as int) + zeros((i + 1 - k) as nat));
        i += 1;
    }
    assert(r@ =~= code_text(now as nat, length as nat));
    r
}


/// An ASCII letter or digit.
pub open spec fn ascii_alnum(c: char) -> bool {
    'a' <= c <= 'z' || 'A' <= c <= 'Z' || '0' <= c <= '9'
}

/// An ASCII character.
pub open spec fn is_ascii_char(c: char) -> bool {
    (c as int) < 128
}

/// ASCII lower-casing of one character, as a code point.
pub open spec fn ascii_lower_code(c: char) -> int {
    if 'A' <= c <= 'Z' { c as int + 32 } else { c as int }
}

/// Unicode `White_Space`: the 25 code points that std's `char::is_whitespace`
/// and `str::trim` treat as white space.
pub open spec fn white_space(c: char) -> bool {
    let n = c as int;
    (9 <= n <= 13) || n == 32 || n == 0x85 || n == 0xA0 || n == 0x1680 || (0x2000 <= n <= 0x200A)
        || n == 0x2028 || n == 0x2029 || n == 0x202F || n == 0x205F || n == 0x3000
}

/// How many white-space characters `s` starts with.
pub open spec fn leading_space(s: Seq<char>) -> nat
    decreases s.len(),
{
    if s.len() > 0 && white_space(s[0]) {
        1 + leading_space(s.drop_first())
    } else {
        0
    }
}

/// How many white-space characters `s` ends with.
pub open spec fn trailing_space(s: Seq<char>) -> nat
    decreases s.len(),
{
    if s.len() > 0 && white_space(s.last()) {
        1 + trailing_space(s.drop_last())
    } else {
        0
    }
}

/// `s` without leading and trailing white space.
pub open spec fn trimmed(s: Seq<char>) -> Seq<char> {
    if leading_space(s) >= s.len() {
        Seq::empty()
    } else {
        s.subrange(leading_space(s) as int, s.len() - trailing_space(s))
    }
}

fn is_white_space(c: char) -> (r: bool)
    ensures
        r == white_space(c),
{
    let n = c as u32;
    (9 <= n && n <= 13) || n == 32 || n == 0x85 || n == 0xA0 || n == 0x1680 || (0x2000 <= n && n <= 0x200A)
        || n == 0x2028 || n == 0x2029 || n == 0x202F || n == 0x205F || n == 0x3000
}

/// The text without leading and trailing white space (as `str::trim`
/// gives it); never longer than the input, and the input itself when it
/// starts and ends with an ASCII letter or digit.
pub(crate) fn trim_text(s: &str) -> (r: String)
    ensures
        r@ == trimmed(s@),
        r@.len() <= s@.len(),
        s@.len() > 0 && ascii_alnum(s@[0]) && ascii_alnum(s@[s@.len() - 1]) ==> r@ == s@,
{
    let n = s.unicode_len();
    let mut i: usize = 0;
    assert(s@.skip(0) =~= s@);
    while i < n && is_white_space(s.get_char(i))
        invariant
            n == s@.len(),
            i <= n,
            leading_space(s@) == i + leading_space(s@.skip(i as int)),
        decreases n - i,
    {
        assert(s@.skip(i as int).drop_first() =~= s@.skip(i as int + 1));
        i += 1;
    }
    if i == n {
        assert(s@.skip(n as int).len() == 0);
        return String::new();
    }
    assert(!white_space(s@[i as int]));
    assert(s@.skip(i as int)[0] == s@[i as int]);
    let mut j: usize = n;
    assert(s@.take(n as int) =~= s@);
    while j > i && is_white_space(s.get_char(j - 1))
        invariant
            n == s@.len(),
            i < j <= n,
            !white_space(s@[i as int]),
            trailing_space(s@) == (n - j) + trailing_space(s@.take(j as int)),
        decreases j,
    {
        assert(s@.take(j as int).drop_last() =~= s@.take(j as int - 1));
        assert(s@.take(j as int).last() == s@[j as int - 1]);
        j -= 1;
    }
    assert(s@.take(j as int).last() == s@[j as int - 1]);
    let r = String::from_str(s.substring_char(i, j));
    proof {
        if s@.len() > 0 && ascii_alnum(s@[0]) && ascii_alnum(s@[s@.len() - 1]) {
            assert(s@.subrange(0, s@.len() as int) =~= s@);
        }
    }
    r
}

/// `s` in lower case, as std defines it.
pub uninterp spec fn lowercase(s: Seq<char>) -> Seq<char>;

/// Relies on `str::to_lowercase`: the lowercase mapping of every character
/// (Unicode rules); on ASCII text that is ASCII lower-casing, character by
/// character.
#[verifier::external_body]
pub(crate) fn lowercase_text(s: &str) -> (r: String)
    ensures
        r@ == lowercase(s@),
        s@.len() == 0 ==> r@.len() == 0,
        (forall|i: int| 0 <= i < s@.len() ==> is_ascii_char(#[trigger] s@[i])) ==> r@.len() == s@.len() && forall|i: int|
            0 <= i < s@.len() ==> (#[trigger] r@[i]) as int == ascii_lower_code(s@[i]),
{
    s.to_lowercase()
}
} // verus!
