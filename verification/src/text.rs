use vstd::prelude::*;

verus! {

/// Compares two string slices for equality of their characters.
pub(crate) fn str_eq(a: &str, b: &str) -> (res: bool)
    ensures
        res == (a@ == b@),
{
    let x = chars_of(a);
    let y = chars_of(b);
    if x.len() != y.len() {
        return false;
    }
    let mut i: usize = 0;
    while i < x.len()
        invariant
            i <= x@.len(),
            x@.len() == y@.len(),
            x@ == a@,
            y@ == b@,
            forall|k: int| 0 <= k < i ==> x@[k] == y@[k],
        decreases x@.len() - i,
    {
        if x[i] != y[i] {
            return false;
        }
        i = i + 1;
    }
    assert(x@ =~= y@);
    true
}

} // verus!

verus! {

/// An ASCII upper-case letter.
pub open spec fn is_upper(c: char) -> bool {
    'A' <= c && c <= 'Z'
}

/// An ASCII lower-case letter or an ASCII digit.
pub open spec fn is_lower_or_digit(c: char) -> bool {
    ('a' <= c && c <= 'z') || ('0' <= c && c <= '9')
}

/// From position `i` on, `s` is a run of words, each an upper-case letter followed by at least
/// one lower-case letter or digit, possibly after further lower-case letters or digits that
/// continue the previous word.
pub open spec fn camel_from(s: Seq<char>, i: int) -> bool
    decreases s.len() - i,
{
    if i >= s.len() || i < 0 {
        true
    } else if is_lower_or_digit(s[i]) {
        camel_from(s, i + 1)
    } else {
        is_upper(s[i]) && i + 1 < s.len() && is_lower_or_digit(s[i + 1]) && camel_from(s, i + 2)
    }
}

/// `s` matches `^([A-Z][a-z0-9]+)+$`.
pub open spec fn is_upper_camel(s: Seq<char>) -> bool {
    s.len() >= 2 && is_upper(s[0]) && is_lower_or_digit(s[1]) && camel_from(s, 2)
}

} // verus!

verus! {

/// A common prefix can be cancelled from equal concatenations.
pub proof fn lemma_prefix_cancel(p: Seq<char>, a: Seq<char>, b: Seq<char>)
    requires
        p + a == p + b,
    ensures
        a == b,
{
    assert((p + a).len() == p.len() + a.len());
    assert((p + b).len() == p.len() + b.len());
    assert(a.len() == b.len());
    assert forall|k: int| 0 <= k < a.len() implies a[k] == b[k] by {
        assert((p + a)[p.len() + k] == a[k]);
        assert((p + b)[p.len() + k] == b[k]);
    }
    assert(a =~= b);
}

} // verus!

verus! {

/// Returns the characters of `s`.
pub fn chars_of(s: &str) -> (res: Vec<char>)
    ensures
        res@ == s@,
{
    let mut out: Vec<char> = Vec::new();
    for c in it: s.chars()
        invariant
            it.seq() == s@,
            out@ == s@.take(it.index() as int),
    {
        out.push(c);
        assert(s@.take(it.index() + 1) =~= s@.take(it.index() as int).push(c));
    }
    assert(s@.take(s@.len() as int) =~= s@);
    out
}

} // verus!

verus! {

/// Appends one character to a string.
///
/// Calls `String::push`, which std documents as appending the character to the end.
#[verifier::external_body]
pub(crate) fn push_char(s: &mut String, c: char)
    ensures
        final(s)@ == old(s)@.push(c),
{
    s.push(c)
}

/// Returns a string holding the given characters.
pub fn string_of(chars: &[char]) -> (res: String)
    ensures
        res@ == chars@,
{
    let mut out = String::new();
    let mut i: usize = 0;
    while i < chars.len()
        invariant
            i <= chars@.len(),
            out@ == chars@.take(i as int),
        decreases chars@.len() - i,
    {
        push_char(&mut out, chars[i]);
        assert(chars@.take(i + 1) =~= chars@.take(i as int).push(chars@[i as int]));
        i = i + 1;
    }
    assert(chars@.take(chars@.len() as int) =~= chars@);
    out
}

/// Returns a string holding the characters of `chars` from position `start` up to, not
/// including, position `end`.
pub fn substring(chars: &[char], start: usize, end: usize) -> (res: String)
    requires
        start <= end <= chars@.len(),
    ensures
        res@ == chars@.subrange(start as int, end as int),
{
    let mut out = String::new();
    let mut i: usize = start;
    while i < end
        invariant
            start <= i <= end <= chars@.len(),
            out@ == chars@.subrange(start as int, i as int),
        decreases end - i,
    {
        push_char(&mut out, chars[i]);
        assert(chars@.subrange(start as int, i + 1) =~= chars@.subrange(start as int, i as int).push(
            chars@[i as int],
        ));
        i = i + 1;
    }
    out
}

/// The pieces of `s` between occurrences of `sep`, as `str::split` yields them: always at least
/// one piece, and an empty piece on either side of a separator at an end.
pub open spec fn split_on(s: Seq<char>, sep: char) -> Seq<Seq<char>>
    decreases s.len(),
{
    if s.len() == 0 {
        seq![Seq::empty()]
    } else {
        let pieces = split_on(s.drop_last(), sep);
        if s.last() == sep {
            pieces.push(Seq::empty())
        } else {
            pieces.update(pieces.len() - 1, pieces.last().push(s.last()))
        }
    }
}

/// `split_on` always yields at least one piece.
pub proof fn lemma_split_nonempty(s: Seq<char>, sep: char)
    ensures
        split_on(s, sep).len() >= 1,
    decreases s.len(),
{
    if s.len() > 0 {
        lemma_split_nonempty(s.drop_last(), sep);
    }
}

/// The views of a list of strings.
pub open spec fn views(v: Seq<String>) -> Seq<Seq<char>> {
    v.map_values(|x: String| x@)
}

/// Splits `s` at every occurrence of `sep`.
pub fn split_str(s: &str, sep: char) -> (res: Vec<String>)
    ensures
        views(res@) == split_on(s@, sep),
{
    let chars = chars_of(s);
    let mut pieces: Vec<String> = Vec::new();
    let mut cur = String::new();
    let mut i: usize = 0;
    while i < chars.len()
        invariant
            i <= chars@.len(),
            chars@ == s@,
            views(pieces@).push(cur@) == split_on(s@.take(i as int), sep),
        decreases chars@.len() - i,
    {
        let c = chars[i];
        let ghost prev = s@.take(i as int);
        assert(s@.take(i + 1).drop_last() =~= prev);
        proof {
            lemma_split_nonempty(prev, sep);
        }
        if c == sep {
            let done = cur;
            pieces.push(done);
            cur = String::new();
            assert(views(pieces@).push(cur@) =~= split_on(prev, sep).push(Seq::empty()));
        } else {
            push_char(&mut cur, c);
            assert(views(pieces@).push(cur@) =~= split_on(prev, sep).update(
                split_on(prev, sep).len() - 1,
                split_on(prev, sep).last().push(c),
            ));
        }
        i = i + 1;
    }
    assert(s@.take(chars@.len() as int) =~= s@);
    pieces.push(cur);
    assert(views(pieces@) =~= split_on(s@, sep));
    pieces
}

} // verus!

verus! {

/// The views of a list with one more string are the views of the list with one more view.
pub proof fn lemma_views_push(v: Seq<String>, x: String)
    ensures
        views(v.push(x)) == views(v).push(x@),
{
    assert(views(v.push(x)) =~= views(v).push(x@));
}

} // verus!

verus! {

/// The decimal digit character for `d`.
pub open spec fn digit_char(d: nat) -> char {
    if d == 0 { '0' } else if d == 1 { '1' } else if d == 2 { '2' } else if d == 3 { '3' }
    else if d == 4 { '4' } else if d == 5 { '5' } else if d == 6 { '6' } else if d == 7 { '7' }
    else if d == 8 { '8' } else { '9' }
}

/// The value of a decimal digit character.
pub open spec fn digit_value(c: char) -> nat {
    if c == '0' { 0 } else if c == '1' { 1 } else if c == '2' { 2 } else if c == '3' { 3 }
    else if c == '4' { 4 } else if c == '5' { 5 } else if c == '6' { 6 } else if c == '7' { 7 }
    else if c == '8' { 8 } else { 9 }
}

/// The decimal representation of `n`, without leading zeros.
pub open spec fn decimal(n: nat) -> Seq<char>
    decreases n,
{
    if n < 10 {
        seq![digit_char(n)]
    } else {
        decimal(n / 10).push(digit_char(n % 10))
    }
}

/// The decimal text of a number is a non-empty run of digits whose value is the number.
pub proof fn lemma_decimal_digits(n: nat)
    ensures
        decimal(n).len() > 0,
        all_digits(decimal(n)),
        digits_value(decimal(n)) == n,
    decreases n,
{
    let d = n % 10;
    assert(digit_value(digit_char(d)) == d);
    if n >= 10 {
        lemma_decimal_digits(n / 10);
        let s = decimal(n);
        assert(s.drop_last() =~= decimal(n / 10));
        assert(forall|i: int| 0 <= i < s.len() - 1 ==> s[i] == decimal(n / 10)[i]);
        assert(digits_value(s) == digits_value(decimal(n / 10)) * 10 + digit_value(s.last()));
    } else {
        let s = decimal(n);
        assert(s.drop_last() =~= Seq::<char>::empty());
        assert(digits_value(s) == digits_value(s.drop_last()) * 10 + digit_value(s.last()));
    }
}

/// The decimal text of a port reads back as the port.
pub proof fn lemma_parse_u16_decimal(n: u16)
    ensures
        spec_parse_u16(decimal(n as nat)) == Some(n),
{
    lemma_decimal_digits(n as nat);
    assert('0' <= decimal(n as nat)[0] && decimal(n as nat)[0] <= '9');
}

/// The decimal text of a count reads back as the count.
pub proof fn lemma_parse_usize_decimal(n: usize)
    ensures
        spec_parse_usize(decimal(n as nat)) == Some(n),
{
    lemma_decimal_digits(n as nat);
    assert('0' <= decimal(n as nat)[0] && decimal(n as nat)[0] <= '9');
}

/// The first occurrence of `c` in `s` is the position where it occurs with none before.
pub proof fn lemma_first_index_of(s: Seq<char>, c: char, k: int)
    requires
        0 <= k < s.len(),
        s[k] == c,
        forall|j: int| 0 <= j < k ==> s[j] != c,
    ensures
        first_index_of(s, c) == Some(k),
{
    let i = choose|i: int| 0 <= i < s.len() && s[i] == c && forall|j: int| 0 <= j < i ==> s[j] != c;
    assert(0 <= i < s.len() && s[i] == c && forall|j: int| 0 <= j < i ==> s[j] != c);
    if i < k {
        assert(s[i] != c);
    } else if i > k {
        assert(s[k] != c);
    }
}

fn digit(d: u64) -> (res: char)
    requires
        d < 10,
    ensures
        res == digit_char(d as nat),
{
    if d == 0 { '0' } else if d == 1 { '1' } else if d == 2 { '2' } else if d == 3 { '3' }
    else if d == 4 { '4' } else if d == 5 { '5' } else if d == 6 { '6' } else if d == 7 { '7' }
    else if d == 8 { '8' } else { '9' }
}

/// Appends the decimal representation of `n` to `s`.
pub fn push_decimal(s: &mut String, n: u64)
    ensures
        final(s)@ == old(s)@ + decimal(n as nat),
    decreases n,
{
    if n >= 10 {
        push_decimal(s, n / 10);
    }
    push_char(s, digit(n % 10));
    assert(old(s)@ + decimal(n as nat) =~= if n >= 10 {
        (old(s)@ + decimal((n / 10) as nat)).push(digit_char((n % 10) as nat))
    } else {
        old(s)@.push(digit_char(n as nat))
    });
}

/// Every character of `s` is a decimal digit.
pub open spec fn all_digits(s: Seq<char>) -> bool {
    forall|i: int| 0 <= i < s.len() ==> '0' <= #[trigger] s[i] && s[i] <= '9'
}

/// The value of a string of decimal digits.
pub open spec fn digits_value(s: Seq<char>) -> nat
    decreases s.len(),
{
    if s.len() == 0 {
        0
    } else {
        digits_value(s.drop_last()) * 10 + digit_value(s.last())
    }
}

/// What `str::parse::<u16>` yields: the value of an optional `+` followed by one or more decimal
/// digits, if it fits.
pub open spec fn spec_parse_u16(s: Seq<char>) -> Option<u16> {
    let digits = if s.len() > 0 && s[0] == '+' {
        s.drop_first()
    } else {
        s
    };
    if digits.len() == 0 || !all_digits(digits) || digits_value(digits) > u16::MAX {
        None
    } else {
        Some(digits_value(digits) as u16)
    }
}

/// Parses a port number, as `str::parse::<u16>` does.
pub(crate) fn parse_u16(s: &str) -> (res: Option<u16>)
    ensures
        res == spec_parse_u16(s@),
{
    match parse_unsigned(s, 65535) {
        Some(v) => Some(v as u16),
        None => None,
    }
}

/// What `str::parse::<usize>` yields: the value of an optional `+` followed by one or more
/// decimal digits, if it fits.
pub open spec fn spec_parse_usize(s: Seq<char>) -> Option<usize> {
    let digits = if s.len() > 0 && s[0] == '+' {
        s.drop_first()
    } else {
        s
    };
    if digits.len() == 0 || !all_digits(digits) || digits_value(digits) > usize::MAX {
        None
    } else {
        Some(digits_value(digits) as usize)
    }
}

/// Parses a count, as `str::parse::<usize>` does.
pub(crate) fn parse_usize(s: &str) -> (res: Option<usize>)
    ensures
        res == spec_parse_usize(s@),
{
    match parse_unsigned(s, usize::MAX as u64) {
        Some(v) => Some(v as usize),
        None => None,
    }
}

/// The value of a decimal digit character, if it is one.
fn digit_of(c: char) -> (res: Option<u64>)
    ensures
        match res {
            Some(d) => '0' <= c <= '9' && d == digit_value(c),
            None => !('0' <= c <= '9'),
        },
{
    if c == '0' { Some(0) } else if c == '1' { Some(1) } else if c == '2' { Some(2) }
    else if c == '3' { Some(3) } else if c == '4' { Some(4) } else if c == '5' { Some(5) }
    else if c == '6' { Some(6) } else if c == '7' { Some(7) } else if c == '8' { Some(8) }
    else if c == '9' { Some(9) } else { None }
}

/// A string of digits is worth at least as much as any of its prefixes.
proof fn lemma_digits_value_prefix(s: Seq<char>, k: int)
    requires
        0 <= k <= s.len(),
    ensures
        digits_value(s.take(k)) <= digits_value(s),
    decreases s.len() - k,
{
    if k < s.len() {
        lemma_digits_value_prefix(s, k + 1);
        assert(s.take(k + 1).drop_last() =~= s.take(k));
    } else {
        assert(s.take(k) =~= s);
    }
}

/// The digits of `s`, without a leading `+`.
pub open spec fn unsigned_digits(s: Seq<char>) -> Seq<char> {
    if s.len() > 0 && s[0] == '+' {
        s.drop_first()
    } else {
        s
    }
}

/// Parses an optional `+` followed by one or more decimal digits whose value is at most `max`.
fn parse_unsigned(s: &str, max: u64) -> (res: Option<u64>)
    ensures
        match res {
            Some(v) => {
                &&& unsigned_digits(s@).len() > 0
                &&& all_digits(unsigned_digits(s@))
                &&& digits_value(unsigned_digits(s@)) <= max
                &&& v == digits_value(unsigned_digits(s@))
            },
            None => unsigned_digits(s@).len() == 0 || !all_digits(unsigned_digits(s@))
                || digits_value(unsigned_digits(s@)) > max,
        },
{
    let chars = chars_of(s);
    let start: usize = if chars.len() > 0 && chars[0] == '+' { 1 } else { 0 };
    assert(unsigned_digits(s@) =~= chars@.subrange(start as int, chars@.len() as int));
    parse_digit_run(&chars, start, max)
}

/// Parses the characters of `chars` from `start` on as one or more decimal digits whose value is
/// at most `max`.
fn parse_digit_run(chars: &Vec<char>, start: usize, max: u64) -> (res: Option<u64>)
    requires
        start <= chars@.len(),
    ensures
        ({
            let d = chars@.subrange(start as int, chars@.len() as int);
            match res {
                Some(v) => d.len() > 0 && all_digits(d) && digits_value(d) <= max && v == digits_value(d),
                None => d.len() == 0 || !all_digits(d) || digits_value(d) > max,
            }
        }),
{
    let ghost d = chars@.subrange(start as int, chars@.len() as int);
    if chars.len() == start {
        return None;
    }
    let mut value: u64 = 0;
    let mut i: usize = start;
    assert(d.take(0) =~= Seq::<char>::empty());
    while i < chars.len()
        invariant
            start <= i <= chars@.len(),
            d == chars@.subrange(start as int, chars@.len() as int),
            value <= max,
            value == digits_value(d.take(i - start)),
            all_digits(d.take(i - start)),
        decreases chars@.len() - i,
    {
        let k: usize = i - start;
        assert(d.take(k + 1).drop_last() =~= d.take(k as int));
        assert(d[k as int] == chars@[i as int]);
        let digit = match digit_of(chars[i]) {
            Some(v) => v,
            None => {
                assert(!('0' <= d[k as int] <= '9'));
                return None;
            },
        };
        assert(digits_value(d.take(k + 1)) == digits_value(d.take(k as int)) * 10 + digit_value(d[k as int]));
        if digit > max || value > (max - digit) / 10 {
            proof {
                if digit <= max {
                    assert(value * 10 + digit > max) by (nonlinear_arith)
                        requires
                            value > (max - digit) / 10,
                            digit <= max,
                    ;
                }
                if all_digits(d) {
                    lemma_digits_value_prefix(d, k + 1);
                }
            }
            return None;
        }
        proof {
            assert(value * 10 + digit <= max) by (nonlinear_arith)
                requires
                    value <= (max - digit) / 10,
                    digit <= max,
            ;
        }
        value = value * 10 + digit;
        assert(all_digits(d.take(k + 1))) by {
            assert forall|j: int| 0 <= j < k + 1 implies '0' <= #[trigger] d.take(k + 1)[j] && d.take(k + 1)[j] <= '9' by {
                if j < k {
                    assert(d.take(k + 1)[j] == d.take(k as int)[j]);
                }
            }
        }
        i = i + 1;
    }
    assert(d.take(d.len() as int) =~= d);
    Some(value)
}

/// The sign and the digits of a signed decimal number: an optional `-` or `+`, then the digits.
pub open spec fn signed_parts(s: Seq<char>) -> (bool, Seq<char>) {
    if s.len() > 0 && s[0] == '-' {
        (true, s.drop_first())
    } else if s.len() > 0 && s[0] == '+' {
        (false, s.drop_first())
    } else {
        (false, s)
    }
}

/// The value of a signed decimal number, as `str::parse` reads it for a signed integer type
/// wide enough to hold it: an optional `-` or `+` followed by one or more decimal digits.
pub open spec fn spec_parse_int(s: Seq<char>) -> Option<int> {
    let (negative, d) = signed_parts(s);
    if d.len() == 0 || !all_digits(d) {
        None
    } else if negative {
        Some(-digits_value(d))
    } else {
        Some(digits_value(d) as int)
    }
}

/// The decimal text of a number reads back as the number, with a `-` in front as its negation
/// and with a `+` in front as itself; text without digits reads as no number.
pub proof fn lemma_parse_int_decimal(n: nat)
    ensures
        spec_parse_int(decimal(n)) == Some(n as int),
        spec_parse_int(seq!['-'] + decimal(n)) == Some(-(n as int)),
        spec_parse_int(seq!['+'] + decimal(n)) == Some(n as int),
        spec_parse_int(Seq::empty()) is None,
        spec_parse_int(seq!['-']) is None,
{
    lemma_decimal_digits(n);
    let d = decimal(n);
    assert('0' <= d[0] && d[0] <= '9');
    assert((seq!['-'] + d).drop_first() =~= d);
    assert((seq!['+'] + d).drop_first() =~= d);
    assert(seq!['-'].drop_first() =~= Seq::<char>::empty());
}

/// Parses a signed decimal number that fits an `i64`; none where the text is no number or the
/// number does not fit.
pub fn parse_i64(s: &str) -> (res: Option<i64>)
    ensures
        match res {
            Some(v) => spec_parse_int(s@) == Some(v as int),
            None => match spec_parse_int(s@) {
                Some(n) => n < i64::MIN || n > i64::MAX,
                None => true,
            },
        },
{
    let chars = chars_of(s);
    let negative = chars.len() > 0 && chars[0] == '-';
    let start: usize = if chars.len() > 0 && (chars[0] == '-' || chars[0] == '+') { 1 } else { 0 };
    assert(signed_parts(s@).1 =~= chars@.subrange(start as int, chars@.len() as int));
    assert(signed_parts(s@).0 == negative);
    let max: u64 = if negative { 9223372036854775808 } else { 9223372036854775807 };
    match parse_digit_run(&chars, start, max) {
        Some(v) => {
            if negative {
                if v == 9223372036854775808 {
                    Some(-9223372036854775807i64 - 1)
                } else {
                    Some(-(v as i64))
                }
            } else {
                Some(v as i64)
            }
        },
        None => None,
    }
}

/// The position of the first occurrence of `c` in `s`, if any.
pub open spec fn first_index_of(s: Seq<char>, c: char) -> Option<int> {
    if exists|i: int| 0 <= i < s.len() && s[i] == c {
        Some(choose|i: int| 0 <= i < s.len() && s[i] == c && forall|j: int| 0 <= j < i ==> s[j] != c)
    } else {
        None
    }
}

/// Finds the first occurrence of `c` in `chars`.
pub fn find_char(chars: &Vec<char>, c: char) -> (res: Option<usize>)
    ensures
        match res {
            Some(i) => {
                &&& first_index_of(chars@, c) == Some(i as int)
                &&& i < chars@.len()
                &&& chars@[i as int] == c
                &&& forall|j: int| 0 <= j < i ==> chars@[j] != c
            },
            None => first_index_of(chars@, c) is None,
        },
{
    let mut i: usize = 0;
    while i < chars.len()
        invariant
            i <= chars@.len(),
            forall|j: int| 0 <= j < i ==> chars@[j] != c,
        decreases chars@.len() - i,
    {
        if chars[i] == c {
            assert(exists|k: int| 0 <= k < chars@.len() && chars@[k] == c && forall|j: int|
                0 <= j < k ==> chars@[j] != c);
            let ghost k = choose|k: int|
                0 <= k < chars@.len() && chars@[k] == c && forall|j: int| 0 <= j < k ==> chars@[j] != c;
            assert(k == i) by {
                if k < i {
                    assert(chars@[k] != c);
                } else if k > i {
                    assert(chars@[i as int] != c);
                }
            }
            return Some(i);
        }
        i = i + 1;
    }
    None
}

} // verus!
