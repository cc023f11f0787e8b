//! Text made of numbers and of pieces.

use vstd::prelude::*;

verus! {

/// The digit for a number below ten.
pub open spec fn digit(n: nat) -> char {
    (('0' as nat + n) as u32) as char
}

/// A number in decimal.
pub open spec fn decimal(n: nat) -> Seq<char>
    decreases n,
{
    if n < 10 {
        seq![digit(n)]
    } else {
        decimal(n / 10).push(digit(n % 10))
    }
}

fn digit_text(n: u64) -> (r: &'static str)
    requires
        n < 10,
    ensures
        r@ == seq![digit(n as nat)],
{
    proof {
        reveal_strlit("0");
        reveal_strlit("1");
        reveal_strlit("2");
        reveal_strlit("3");
        reveal_strlit("4");
        reveal_strlit("5");
        reveal_strlit("6");
        reveal_strlit("7");
        reveal_strlit("8");
        reveal_strlit("9");
    }
    if n == 0 {
        "0"
    } else if n == 1 {
        "1"
    } else if n == 2 {
        "2"
    } else if n == 3 {
        "3"
    } else if n == 4 {
        "4"
    } else if n == 5 {
        "5"
    } else if n == 6 {
        "6"
    } else if n == 7 {
        "7"
    } else if n == 8 {
        "8"
    } else {
        "9"
    }
}

/// Adds a number in decimal.
pub fn push_decimal(text: &mut String, n: u64)
    ensures
        final(text)@ == old(text)@ + decimal(n as nat),
    decreases n,
{
    if n >= 10 {
        push_decimal(text, n / 10);
    }
    let ghost before = text@;
    text.append(digit_text(n % 10));
    assert(text@ =~= old(text)@ + decimal(n as nat));
}

/// The id of tuner `index` of a device: the id of the device, then `#` and the
/// index.
pub open spec fn tuner_id(device: Seq<char>, index: nat) -> Seq<char> {
    device.push('#') + decimal(index)
}

/// The id of tuner `index` of a device.
pub fn id_of_tuner(device: &str, index: usize) -> (r: String)
    ensures
        r@ == tuner_id(device@, index as nat),
{
    proof {
        reveal_strlit("#");
    }
    let mut id: String = device.to_owned();
    id.append("#");
    assert(id@ =~= device@.push('#'));
    push_decimal(&mut id, index as u64);
    id
}

proof fn decimal_is_not_empty(n: nat)
    ensures
        decimal(n).len() >= 1,
        n >= 10 ==> decimal(n).len() >= 2,
    decreases n,
{
    if n >= 10 {
        decimal_is_not_empty(n / 10);
    }
}

/// Two numbers that read the same in decimal are the same.
pub proof fn decimal_tells_apart(a: nat, b: nat)
    requires
        decimal(a) == decimal(b),
    ensures
        a == b,
    decreases a,
{
    decimal_is_not_empty(a);
    decimal_is_not_empty(b);
    if a < 10 {
        assert(decimal(a).len() == 1);
        assert(decimal(a)[0] == digit(a));
        assert(decimal(b)[0] == digit(b));
    } else {
        assert(b >= 10);
        assert(decimal(a).drop_last() =~= decimal(a / 10));
        assert(decimal(b).drop_last() =~= decimal(b / 10));
        decimal_tells_apart(a / 10, b / 10);
        assert(decimal(a).last() == digit(a % 10));
        assert(decimal(b).last() == digit(b % 10));
    }
}

proof fn decimal_is_digits(n: nat)
    ensures
        forall|k: int| 0 <= k < decimal(n).len() ==> #[trigger] decimal(n)[k] != '#',
    decreases n,
{
    if n >= 10 {
        decimal_is_digits(n / 10);
        assert forall|k: int| 0 <= k < decimal(n).len() implies #[trigger] decimal(n)[k] != '#' by {
            if k < decimal(n).len() - 1 {
                assert(decimal(n)[k] == decimal(n / 10)[k]);
            }
        }
    }
}

/// Tuners have ids of their own, also across devices.
pub proof fn tuner_ids_tell_apart(a: Seq<char>, i: nat, b: Seq<char>, j: nat)
    requires
        tuner_id(a, i) == tuner_id(b, j),
    ensures
        a == b,
        i == j,
{
    let x = tuner_id(a, i);
    let y = tuner_id(b, j);
    decimal_is_digits(i);
    decimal_is_digits(j);
    assert(x.len() == a.len() + 1 + decimal(i).len());
    assert(y.len() == b.len() + 1 + decimal(j).len());
    assert(x[a.len() as int] == '#');
    assert(y[b.len() as int] == '#');
    if a.len() < b.len() {
        assert(x[b.len() as int] == decimal(i)[b.len() - a.len() - 1]);
    } else if b.len() < a.len() {
        assert(y[a.len() as int] == decimal(j)[a.len() - b.len() - 1]);
    }
    assert(x.take(a.len() as int) =~= a);
    assert(y.take(b.len() as int) =~= b);
    assert(x.skip(a.len() + 1int) =~= decimal(i));
    assert(y.skip(b.len() + 1int) =~= decimal(j));
    decimal_tells_apart(i, j);
}

/// Why a text is no number.
#[derive(Clone, Copy, Debug, PartialEq, Eq, Structural)]
pub enum NumberError {
    Empty,
    InvalidDigit,
    TooLarge,
}

impl NumberError {
    /// The error in words.
    pub open spec fn text(self) -> &'static str {
        match self {
            NumberError::Empty => "cannot parse integer from empty string",
            NumberError::InvalidDigit => "invalid digit found in string",
            NumberError::TooLarge => "number too large to fit in target type",
        }
    }

    /// The error in words.
    pub fn message(self) -> (r: &'static str)
        ensures
            r == self.text(),
    {
        match self {
            NumberError::Empty => "cannot parse integer from empty string",
            NumberError::InvalidDigit => "invalid digit found in string",
            NumberError::TooLarge => "number too large to fit in target type",
        }
    }
}

/// What a character stands for as a digit, letters going on from nine.
pub open spec fn digit_value(c: char, radix: nat) -> Option<nat> {
    let n = c as nat;
    let value = if '0' as nat <= n <= '9' as nat {
        Some((n - '0' as nat) as nat)
    } else if 'a' as nat <= n <= 'z' as nat {
        Some((n - 'a' as nat + 10) as nat)
    } else if 'A' as nat <= n <= 'Z' as nat {
        Some((n - 'A' as nat + 10) as nat)
    } else {
        None
    };
    match value {
        Some(v) => if v < radix {
            Some(v)
        } else {
            None
        },
        None => None,
    }
}

/// The number the digits from `i` on make after `acc`, if all are digits and it
/// stays within `max`; otherwise what comes first to speak against it.
pub open spec fn digits_value(s: Seq<char>, i: int, acc: nat, radix: nat, max: nat) -> Result<
    nat,
    NumberError,
>
    decreases s.len() - i,
{
    if i < 0 || i >= s.len() {
        Ok(acc)
    } else {
        match digit_value(s[i], radix) {
            None => Err(NumberError::InvalidDigit),
            Some(d) => if acc * radix + d > max {
                Err(NumberError::TooLarge)
            } else {
                digits_value(s, i + 1, acc * radix + d, radix, max)
            },
        }
    }
}

/// The number a text stands for: digits, after a plus sign if need be.
pub open spec fn number(s: Seq<char>, radix: nat, max: nat) -> Result<nat, NumberError> {
    if s.len() == 0 {
        Err(NumberError::Empty)
    } else if s[0] == '+' && s.len() > 1 {
        digits_value(s, 1, 0, radix, max)
    } else {
        digits_value(s, 0, 0, radix, max)
    }
}

fn value_of_digit(c: char, radix: u32) -> (r: Option<u32>)
    ensures
        match digit_value(c, radix as nat) {
            Some(d) => r matches Some(v) && v == d,
            None => r is None,
        },
{
    let n: u32 = c as u32;
    let value: u32 = if 0x30 <= n && n <= 0x39 {
        n - 0x30
    } else if 0x61 <= n && n <= 0x7a {
        n - 0x61 + 10
    } else if 0x41 <= n && n <= 0x5a {
        n - 0x41 + 10
    } else {
        return None;
    };
    if value < radix {
        Some(value)
    } else {
        None
    }
}

/// The number a text stands for.
pub fn parse_number(s: &str, radix: u32, max: u32) -> (r: Result<u32, NumberError>)
    requires
        2 <= radix <= 36,
    ensures
        match number(s@, radix as nat, max as nat) {
            Ok(n) => r matches Ok(v) && v == n,
            Err(e) => r == Err::<u32, NumberError>(e),
        },
{
    let n: usize = s.unicode_len();
    if n == 0 {
        return Err(NumberError::Empty);
    }
    let mut i: usize = 0;
    if n > 1 && s.get_char(0) == '+' {
        i = 1;
    }
    let mut acc: u32 = 0;
    while i < n
        invariant
            i <= n,
            n == s@.len(),
            2 <= radix <= 36,
            acc <= max,
            number(s@, radix as nat, max as nat) == digits_value(
                s@,
                i as int,
                acc as nat,
                radix as nat,
                max as nat,
            ),
        decreases n - i,
    {
        match value_of_digit(s.get_char(i), radix) {
            None => return Err(NumberError::InvalidDigit),
            Some(d) => {
                assert(acc * radix <= u32::MAX * 36) by (nonlinear_arith)
                    requires
                        acc <= u32::MAX,
                        radix <= 36,
                ;
                let next: u64 = acc as u64 * radix as u64 + d as u64;
                if next > max as u64 {
                    return Err(NumberError::TooLarge);
                }
                acc = next as u32;
            },
        }
        i = i + 1;
    }
    Ok(acc)
}

/// The number of 16 bits a text stands for: in hexadecimal after `0x`, or else in
/// decimal.
pub open spec fn number_u16(s: Seq<char>) -> Result<nat, NumberError> {
    match stripped(s, seq!['0', 'x']) {
        Some(hex) => number(hex, 16, 0xffff),
        None => match stripped(s, seq!['0', 'X']) {
            Some(hex) => number(hex, 16, 0xffff),
            None => number(s, 10, 0xffff),
        },
    }
}

/// The number of 16 bits a text stands for: in hexadecimal after `0x`, or else in
/// decimal.
pub fn parse_u16(s: &str) -> (r: Result<u16, NumberError>)
    ensures
        match number_u16(s@) {
            Ok(n) => r matches Ok(v) && v == n,
            Err(e) => r == Err::<u16, NumberError>(e),
        },
{
    proof {
        reveal_strlit("0x");
        reveal_strlit("0X");
        assert("0x"@ =~= seq!['0', 'x']);
        assert("0X"@ =~= seq!['0', 'X']);
    }
    let parsed: Result<u32, NumberError> = match strip_prefix(s, "0x") {
        Some(hex) => parse_number(hex, 16, 0xffff),
        None => match strip_prefix(s, "0X") {
            Some(hex) => parse_number(hex, 16, 0xffff),
            None => parse_number(s, 10, 0xffff),
        },
    };
    match parsed {
        Ok(n) => {
            proof {
                within_max(s@);
            }
            Ok(n as u16)
        },
        Err(e) => Err(e),
    }
}

proof fn digits_within_max(s: Seq<char>, i: int, acc: nat, radix: nat, max: nat)
    requires
        acc <= max,
    ensures
        digits_value(s, i, acc, radix, max) matches Ok(n) ==> n <= max,
    decreases s.len() - i,
{
    if 0 <= i < s.len() {
        match digit_value(s[i], radix) {
            Some(d) => if acc * radix + d <= max {
                digits_within_max(s, i + 1, acc * radix + d, radix, max);
            },
            None => {},
        }
    }
}

/// A number parsed within a limit is within it.
pub proof fn number_within_max(s: Seq<char>, radix: nat, max: nat)
    ensures
        number(s, radix, max) matches Ok(n) ==> n <= max,
{
    digits_within_max(s, 0, 0, radix, max);
    digits_within_max(s, 1, 0, radix, max);
}

proof fn within_max(s: Seq<char>)
    ensures
        number_u16(s) matches Ok(n) ==> n <= 0xffff,
{
    number_within_max(s, 10, 0xffff);
    match stripped(s, seq!['0', 'x']) {
        Some(hex) => number_within_max(hex, 16, 0xffff),
        None => match stripped(s, seq!['0', 'X']) {
            Some(hex) => number_within_max(hex, 16, 0xffff),
            None => {},
        },
    }
}

/// What follows `prefix`, if the text starts with it.
pub open spec fn stripped(s: Seq<char>, prefix: Seq<char>) -> Option<Seq<char>> {
    if prefix.is_prefix_of(s) {
        Some(s.skip(prefix.len() as int))
    } else {
        None
    }
}

/// What comes before `suffix`, if the text ends with it.
pub open spec fn stripped_end(s: Seq<char>, suffix: Seq<char>) -> Option<Seq<char>> {
    if suffix.is_suffix_of(s) {
        Some(s.take(s.len() - suffix.len()))
    } else {
        None
    }
}

fn same_at(s: &str, from: usize, part: &str) -> (r: bool)
    requires
        from + part@.len() <= s@.len(),
    ensures
        r == (s@.subrange(from as int, from + part@.len()) == part@),
{
    let total: usize = s.unicode_len();
    let n: usize = part.unicode_len();
    let mut i: usize = 0;
    while i < n
        invariant
            i <= n,
            n == part@.len(),
            from + n <= total,
            total == s@.len(),
            forall|k: int| 0 <= k < i ==> s@[from + k] == part@[k],
        decreases n - i,
    {
        let same: bool = s.get_char(from + i) == part.get_char(i);
        if !same {
            assert(s@.subrange(from as int, from + part@.len())[i as int] != part@[i as int]);
            return false;
        }
        i = i + 1;
    }
    assert(s@.subrange(from as int, from + part@.len()) =~= part@);
    true
}

/// What follows `prefix`, if the text starts with it.
pub fn strip_prefix<'a>(s: &'a str, prefix: &str) -> (r: Option<&'a str>)
    ensures
        match stripped(s@, prefix@) {
            Some(rest) => r matches Some(t) && t@ == rest,
            None => r is None,
        },
{
    let n: usize = s.unicode_len();
    let m: usize = prefix.unicode_len();
    if m > n {
        return None;
    }
    let same: bool = same_at(s, 0, prefix);
    assert(same == prefix@.is_prefix_of(s@)) by {
        if same {
            assert(prefix@ =~= s@.subrange(0, prefix@.len() as int));
        }
    }
    if same {
        let rest: &'a str = s.substring_char(m, n);
        assert(rest@ =~= s@.skip(m as int));
        Some(rest)
    } else {
        None
    }
}

/// What comes before `suffix`, if the text ends with it.
pub fn strip_suffix<'a>(s: &'a str, suffix: &str) -> (r: Option<&'a str>)
    ensures
        match stripped_end(s@, suffix@) {
            Some(rest) => r matches Some(t) && t@ == rest,
            None => r is None,
        },
{
    let n: usize = s.unicode_len();
    let m: usize = suffix.unicode_len();
    if m > n {
        return None;
    }
    let same: bool = same_at(s, n - m, suffix);
    assert(same == suffix@.is_suffix_of(s@)) by {
        if same {
            assert(suffix@ =~= s@.subrange(s@.len() - suffix@.len(), s@.len() as int));
        }
    }
    if same {
        let rest: &'a str = s.substring_char(0, n - m);
        assert(rest@ =~= s@.take(n - m));
        Some(rest)
    } else {
        None
    }
}

/// Whether a character is white space.
pub open spec fn is_space(c: char) -> bool {
    let n = c as nat;
    ||| 0x09 <= n <= 0x0d
    ||| n == 0x20
    ||| n == 0x85
    ||| n == 0xa0
    ||| n == 0x1680
    ||| 0x2000 <= n <= 0x200a
    ||| n == 0x2028
    ||| n == 0x2029
    ||| n == 0x202f
    ||| n == 0x205f
    ||| n == 0x3000
}

fn space(c: char) -> (r: bool)
    ensures
        r == is_space(c),
{
    let n: u32 = c as u32;
    (0x09 <= n && n <= 0x0d) || n == 0x20 || n == 0x85 || n == 0xa0 || n == 0x1680 || (0x2000 <= n
        && n <= 0x200a) || n == 0x2028 || n == 0x2029 || n == 0x202f || n == 0x205f || n == 0x3000
}

/// A text without the white space around it.
pub open spec fn trimmed(s: Seq<char>) -> Seq<char>
    decreases s.len(),
{
    if s.len() == 0 {
        s
    } else if is_space(s[0]) {
        trimmed(s.skip(1))
    } else if is_space(s.last()) {
        trimmed(s.drop_last())
    } else {
        s
    }
}

/// A text without the white space around it.
pub fn trim<'a>(s: &'a str) -> (r: &'a str)
    ensures
        r@ == trimmed(s@),
{
    let mut from: usize = 0;
    let mut to: usize = s.unicode_len();
    assert(s@.subrange(0, s@.len() as int) =~= s@);
    while from < to && space(s.get_char(from))
        invariant
            from <= to <= s@.len(),
            trimmed(s@) == trimmed(s@.subrange(from as int, to as int)),
        ensures
            from < to ==> !is_space(s@[from as int]),
        decreases to - from,
    {
        assert(s@.subrange(from as int, to as int).skip(1) =~= s@.subrange(from + 1, to as int));
        from = from + 1;
    }
    while from < to && space(s.get_char(to - 1))
        invariant
            from <= to <= s@.len(),
            trimmed(s@) == trimmed(s@.subrange(from as int, to as int)),
            from < to ==> !is_space(s@[from as int]),
        ensures
            from < to ==> !is_space(s@[to - 1]),
        decreases to - from,
    {
        assert(s@.subrange(from as int, to as int).drop_last() =~= s@.subrange(
            from as int,
            to - 1,
        ));
        to = to - 1;
    }
    s.substring_char(from, to)
}

/// A text without the `prefix`es it starts with.
pub open spec fn stripped_all(s: Seq<char>, prefix: Seq<char>) -> Seq<char>
    decreases s.len(),
{
    if prefix.len() > 0 && prefix.is_prefix_of(s) {
        stripped_all(s.skip(prefix.len() as int), prefix)
    } else {
        s
    }
}

/// A text without the `prefix`es it starts with.
pub fn strip_prefixes<'a>(s: &'a str, prefix: &str) -> (r: &'a str)
    requires
        prefix@.len() > 0,
    ensures
        r@ == stripped_all(s@, prefix@),
    decreases s@.len(),
{
    match strip_prefix(s, prefix) {
        Some(rest) => strip_prefixes(rest, prefix),
        None => s,
    }
}

/// Where `separator` is found first from `i` on, or else the length.
pub open spec fn position(s: Seq<char>, separator: char, i: int) -> int
    decreases s.len() - i,
{
    if i < 0 || i >= s.len() {
        s.len() as int
    } else if s[i] == separator {
        i
    } else {
        position(s, separator, i + 1)
    }
}

/// The pieces of a text between the separators.
pub open spec fn pieces(s: Seq<char>, separator: char) -> Seq<Seq<char>>
    decreases s.len(),
{
    proof {
        position_is_one(s, separator, 0);
    }
    let at = position(s, separator, 0);
    if at >= s.len() {
        seq![s]
    } else {
        seq![s.take(at)] + pieces(s.skip(at + 1), separator)
    }
}

/// Where a separator is found there is one, and none before.
pub proof fn position_is_one(s: Seq<char>, separator: char, i: int)
    requires
        0 <= i <= s.len(),
    ensures
        i <= position(s, separator, i) <= s.len(),
        position(s, separator, i) < s.len() ==> s[position(s, separator, i)] == separator,
        forall|k: int| i <= k < position(s, separator, i) ==> s[k] != separator,
    decreases s.len() - i,
{
    if i < s.len() && s[i] != separator {
        position_is_one(s, separator, i + 1);
    }
}

/// What texts hold.
pub open spec fn views(texts: Seq<&str>) -> Seq<Seq<char>> {
    texts.map(|i: int, t: &str| t@)
}

/// The pieces of a text between the separators.
pub fn split<'a>(s: &'a str, separator: char) -> (r: Vec<&'a str>)
    ensures
        views(r@) == pieces(s@, separator),
{
    let mut out: Vec<&'a str> = Vec::new();
    let mut rest: &'a str = s;
    proof {
        assert(views(out@) + pieces(s@, separator) =~= pieces(s@, separator));
    }
    loop
        invariant
            views(out@) + pieces(rest@, separator) == pieces(s@, separator),
        decreases rest@.len(),
    {
        let m: usize = rest.unicode_len();
        let mut at: usize = 0;
        let mut found: bool = false;
        while at < m && !found
            invariant
                at <= m,
                m == rest@.len(),
                found ==> at < m && position(rest@, separator, 0) == at,
                !found ==> position(rest@, separator, 0) == position(rest@, separator, at as int),
            decreases m - at + (if found {
                0int
            } else {
                1
            }),
        {
            if rest.get_char(at) == separator {
                found = true;
            } else {
                at = at + 1;
            }
        }
        let ghost before = out@;
        if !found {
            out.push(rest);
            proof {
                assert(views(out@) =~= views(before).push(rest@));
                assert(views(out@) =~= views(before) + pieces(rest@, separator));
            }
            return out;
        }
        let piece: &'a str = rest.substring_char(0, at);
        let next: &'a str = rest.substring_char(at + 1, m);
        proof {
            assert(piece@ =~= rest@.take(at as int));
            assert(next@ =~= rest@.skip(at + 1));
        }
        out.push(piece);
        proof {
            assert(views(out@) =~= views(before).push(piece@));
            assert(views(out@) + pieces(next@, separator) =~= views(before) + pieces(
                rest@,
                separator,
            ));
        }
        rest = next;
    }
}

/// Where a character stands in the order of texts; in that of paths a slash, which
/// ends a name, goes before all.
pub open spec fn rank(c: char, path: bool) -> nat {
    if !path {
        c as nat
    } else if c == '/' {
        0
    } else {
        c as nat + 1
    }
}

/// Whether a text or a path goes before another.
pub open spec fn goes_first(a: Seq<char>, b: Seq<char>, path: bool) -> bool
    decreases a.len(),
{
    if b.len() == 0 {
        false
    } else if a.len() == 0 {
        true
    } else if a[0] != b[0] {
        rank(a[0], path) < rank(b[0], path)
    } else {
        goes_first(a.skip(1), b.skip(1), path)
    }
}

/// Whether a text goes before another.
pub open spec fn before(a: Seq<char>, b: Seq<char>) -> bool {
    goes_first(a, b, false)
}

/// Whether a path goes before another, name by name. The paths are canonical.
pub open spec fn path_before(a: Seq<char>, b: Seq<char>) -> bool {
    goes_first(a, b, true)
}

fn rank_of(c: char, path: bool) -> (r: u32)
    ensures
        r == rank(c, path),
{
    if !path {
        c as u32
    } else if c == '/' {
        0
    } else {
        c as u32 + 1
    }
}

fn is_first(a: &str, b: &str, path: bool) -> (r: bool)
    ensures
        r == goes_first(a@, b@, path),
{
    let n: usize = a.unicode_len();
    let m: usize = b.unicode_len();
    let mut i: usize = 0;
    assert(a@.skip(0) =~= a@);
    assert(b@.skip(0) =~= b@);
    while i < n && i < m
        invariant
            i <= n,
            i <= m,
            n == a@.len(),
            m == b@.len(),
            goes_first(a@, b@, path) == goes_first(a@.skip(i as int), b@.skip(i as int), path),
        decreases n - i,
    {
        let x: char = a.get_char(i);
        let y: char = b.get_char(i);
        proof {
            assert(a@.skip(i as int)[0] == x);
            assert(b@.skip(i as int)[0] == y);
            assert(a@.skip(i as int).skip(1) =~= a@.skip(i + 1));
            assert(b@.skip(i as int).skip(1) =~= b@.skip(i + 1));
        }
        if x != y {
            return rank_of(x, path) < rank_of(y, path);
        }
        i = i + 1;
    }
    i < m
}

/// Whether a text goes before another.
pub fn goes_before(a: &str, b: &str) -> (r: bool)
    ensures
        r == before(a@, b@),
{
    is_first(a, b, false)
}

/// Whether a path goes before another, name by name. The paths are canonical.
pub fn path_goes_before(a: &str, b: &str) -> (r: bool)
    ensures
        r == path_before(a@, b@),
{
    is_first(a, b, true)
}

proof fn ranks_differ(a: char, b: char, path: bool)
    requires
        a != b,
    ensures
        rank(a, path) != rank(b, path),
{
}

/// Of two texts or paths that differ one goes before the other, and only one.
pub proof fn one_goes_first(a: Seq<char>, b: Seq<char>, path: bool)
    ensures
        goes_first(a, b, path) || goes_first(b, a, path) <==> a != b,
        !(goes_first(a, b, path) && goes_first(b, a, path)),
    decreases a.len(),
{
    if a.len() > 0 && b.len() > 0 {
        if a[0] == b[0] {
            one_goes_first(a.skip(1), b.skip(1), path);
            if a.skip(1) == b.skip(1) {
                assert(a =~= seq![a[0]] + a.skip(1));
                assert(b =~= seq![b[0]] + b.skip(1));
            }
        } else {
            ranks_differ(a[0], b[0], path);
        }
    } else if a.len() == 0 && b.len() == 0 {
        assert(a =~= b);
    }
}

/// What goes before a text or path goes before those that one goes before.
pub proof fn first_goes_on(a: Seq<char>, b: Seq<char>, c: Seq<char>, path: bool)
    requires
        goes_first(a, b, path),
        goes_first(b, c, path),
    ensures
        goes_first(a, c, path),
    decreases a.len(),
{
    if a.len() > 0 && b.len() > 0 && c.len() > 0 && a[0] == b[0] && b[0] == c[0] {
        first_goes_on(a.skip(1), b.skip(1), c.skip(1), path);
    }
}

/// The characters that stand for digits: the figures for those below ten, and the letters
/// of either case from ten on.
pub proof fn digits_are_read(d: nat, radix: nat)
    requires
        d < radix <= 36,
    ensures
        d < 10 ==> digit_value(((0x30 + d) as u32) as char, radix) == Some(d),
        d >= 10 ==> digit_value(((0x61 + d - 10) as u32) as char, radix) == Some(d),
        d >= 10 ==> digit_value(((0x41 + d - 10) as u32) as char, radix) == Some(d),
{
    if d < 10 {
        assert((((0x30 + d) as u32) as char) as nat == 0x30 + d);
    } else {
        assert((((0x61 + d - 10) as u32) as char) as nat == 0x61 + d - 10);
        assert((((0x41 + d - 10) as u32) as char) as nat == 0x41 + d - 10);
    }
}

proof fn one_more_digit(s: Seq<char>, c: char, i: int, acc: nat, radix: nat, max: nat)
    requires
        0 <= i <= s.len(),
        digits_value(s, i, acc, radix, max) is Ok,
    ensures
        digits_value(s.push(c), i, acc, radix, max) == match digit_value(c, radix) {
            None => Err(NumberError::InvalidDigit),
            Some(d) => {
                let n = digits_value(s, i, acc, radix, max)->Ok_0;
                if n * radix + d > max {
                    Err(NumberError::TooLarge)
                } else {
                    Ok((n * radix + d) as nat)
                }
            },
        },
    decreases s.len() - i,
{
    assert(forall|k: int| 0 <= k < s.len() ==> s.push(c)[k] == s[k]);
    if i < s.len() {
        one_more_digit(s, c, i + 1, acc * radix + digit_value(s[i], radix)->0, radix, max);
    } else {
        assert(s.push(c)[i] == c);
        reveal_with_fuel(digits_value, 2);
    }
}

/// A digit behind a number makes it so many times as large and adds itself, unless it is
/// too large then.
pub proof fn digits_count_from_the_left(s: Seq<char>, c: char, radix: nat, max: nat)
    requires
        number(s, radix, max) is Ok,
    ensures
        number(s.push(c), radix, max) == match digit_value(c, radix) {
            None => Err(NumberError::InvalidDigit),
            Some(d) => {
                let n = number(s, radix, max)->Ok_0;
                if n * radix + d > max {
                    Err(NumberError::TooLarge)
                } else {
                    Ok((n * radix + d) as nat)
                }
            },
        },
{
    assert(s.push(c)[0] == s[0]);
    if s[0] == '+' && s.len() > 1 {
        one_more_digit(s, c, 1, 0, radix, max);
    } else {
        one_more_digit(s, c, 0, 0, radix, max);
        assert(digit_value('+', radix) is None);
    }
}

/// A number in decimal reads back as that number, and with a plus sign before it too.
pub proof fn decimals_read_back(n: nat, max: nat)
    requires
        n <= max,
    ensures
        number(decimal(n), 10, max) == Ok::<nat, NumberError>(n),
        number(seq!['+'] + decimal(n), 10, max) == Ok::<nat, NumberError>(n),
    decreases n,
{
    let d = n % 10;
    assert(digit(d) as nat == 0x30 + d);
    assert(digit_value(digit(d), 10) == Some(d));
    if n < 10 {
        reveal_with_fuel(digits_value, 3);
        assert((seq!['+'] + decimal(n))[1] == digit(n));
    } else {
        decimals_read_back(n / 10, max);
        digits_count_from_the_left(decimal(n / 10), digit(d), 10, max);
        digits_count_from_the_left(seq!['+'] + decimal(n / 10), digit(d), 10, max);
        assert((seq!['+'] + decimal(n / 10)).push(digit(d)) =~= seq!['+'] + decimal(n));
    }
}

/// What is trimmed off a text is white space before it and behind it, and what is left
/// neither starts nor ends with any.
pub proof fn trimming_takes_white_space(s: Seq<char>) -> (around: (Seq<char>, Seq<char>))
    ensures
        s == around.0 + trimmed(s) + around.1,
        forall|i: int| 0 <= i < around.0.len() ==> is_space(#[trigger] around.0[i]),
        forall|i: int| 0 <= i < around.1.len() ==> is_space(#[trigger] around.1[i]),
        trimmed(s).len() > 0 ==> !is_space(trimmed(s)[0]) && !is_space(trimmed(s).last()),
    decreases s.len(),
{
    if s.len() == 0 {
        (Seq::empty(), Seq::empty())
    } else if is_space(s[0]) {
        let (a, b) = trimming_takes_white_space(s.skip(1));
        assert(s =~= seq![s[0]] + s.skip(1));
        assert((seq![s[0]] + a) + trimmed(s) + b =~= seq![s[0]] + (a + trimmed(s) + b));
        (seq![s[0]] + a, b)
    } else if is_space(s.last()) {
        let (a, b) = trimming_takes_white_space(s.drop_last());
        assert(s =~= s.drop_last().push(s.last()));
        assert(a + trimmed(s) + b.push(s.last()) =~= (a + trimmed(s) + b).push(s.last()));
        (a, b.push(s.last()))
    } else {
        assert(s =~= Seq::<char>::empty() + s + Seq::<char>::empty());
        (Seq::empty(), Seq::empty())
    }
}

/// A text put together again from pieces, with a separator between them.
pub open spec fn put_together(parts: Seq<Seq<char>>, separator: char) -> Seq<char>
    decreases parts.len(),
{
    if parts.len() == 0 {
        Seq::empty()
    } else if parts.len() == 1 {
        parts[0]
    } else {
        parts[0].push(separator) + put_together(parts.skip(1), separator)
    }
}

/// The pieces of a text with the separators between them are the text, there is always
/// one, and no separator is in any of them.
pub proof fn pieces_make_the_text(s: Seq<char>, separator: char)
    ensures
        pieces(s, separator).len() > 0,
        put_together(pieces(s, separator), separator) == s,
        forall|i: int|
            0 <= i < pieces(s, separator).len() ==> !(#[trigger] pieces(s, separator)[i]).contains(
                separator,
            ),
    decreases s.len(),
{
    position_is_one(s, separator, 0);
    let at = position(s, separator, 0);
    let parts = pieces(s, separator);
    if at >= s.len() {
        assert(!s.contains(separator));
    } else {
        let rest = pieces(s.skip(at + 1), separator);
        pieces_make_the_text(s.skip(at + 1), separator);
        assert(parts.skip(1) =~= rest);
        assert(s.take(at).push(separator) + s.skip(at + 1) =~= s);
        assert(!s.take(at).contains(separator));
        assert forall|i: int| 0 <= i < parts.len() implies !(#[trigger] parts[i]).contains(
            separator,
        ) by {
            if i > 0 {
                assert(parts[i] == rest[i - 1]);
            }
        }
    }
}

/// What is stripped off a text stood at its start or its end.
pub proof fn stripping_takes_the_part(s: Seq<char>, part: Seq<char>)
    ensures
        match stripped(s, part) {
            Some(rest) => s == part + rest,
            None => forall|rest: Seq<char>| s != #[trigger] (part + rest),
        },
        match stripped_end(s, part) {
            Some(rest) => s == rest + part,
            None => forall|rest: Seq<char>| s != #[trigger] (rest + part),
        },
{
    if part.is_prefix_of(s) {
        assert(s =~= part + s.skip(part.len() as int));
    } else {
        assert forall|rest: Seq<char>| s != #[trigger] (part + rest) by {
            if s == part + rest {
                assert(part =~= s.subrange(0, part.len() as int));
            }
        }
    }
    if part.is_suffix_of(s) {
        assert(s =~= s.take(s.len() - part.len()) + part);
    } else {
        assert forall|rest: Seq<char>| s != #[trigger] (rest + part) by {
            if s == rest + part {
                assert(part =~= s.subrange(s.len() - part.len(), s.len() as int));
            }
        }
    }
}

/// The first character in which two texts differ decides which goes first: the lesser one,
/// but in paths a slash before all; and a text that goes on goes behind.
pub proof fn first_difference_decides(
    same: Seq<char>,
    x: char,
    y: char,
    a: Seq<char>,
    b: Seq<char>,
)
    ensures
        x != y ==> before(same.push(x) + a, same.push(y) + b) == ((x as u32) < (y as u32)),
        x != y ==> path_before(same.push(x) + a, same.push(y) + b) == (x == '/' || y != '/' && (
        x as u32) < (y as u32)),
        before(same, same.push(y) + b),
        path_before(same, same.push(y) + b),
        !before(same.push(x) + a, same),
        !path_before(same.push(x) + a, same),
    decreases same.len(),
{
    let (s, t) = (same.push(x) + a, same.push(y) + b);
    if same.len() > 0 {
        let rest = same.skip(1);
        first_difference_decides(rest, x, y, a, b);
        assert(s.skip(1) =~= rest.push(x) + a);
        assert(t.skip(1) =~= rest.push(y) + b);
        assert(s[0] == same[0] && t[0] == same[0]);
    } else {
        assert(s[0] == x && t[0] == y);
    }
}

/// The first piece of a text is what stands before the first separator, and the others
/// are those of what stands behind it.
pub proof fn pieces_split_at_separators(first: Seq<char>, separator: char, rest: Seq<char>)
    requires
        !first.contains(separator),
    ensures
        pieces(first, separator) == seq![first],
        pieces(first.push(separator) + rest, separator) == seq![first] + pieces(rest, separator),
{
    let s = first.push(separator) + rest;
    position_is_one(s, separator, 0);
    position_is_one(first, separator, 0);
    let at = position(s, separator, 0);
    assert(s[first.len() as int] == separator);
    assert(at == first.len()) by {
        if at < first.len() {
            assert(s[at] == first[at]);
        }
    }
    assert(s.take(at) =~= first);
    assert(s.skip(at + 1) =~= rest);
}

/// A number in decimal is written in figures.
pub proof fn decimal_has_figures(n: nat)
    ensures
        decimal(n).len() > 0,
        forall|i: int| 0 <= i < decimal(n).len() ==> '0' <= #[trigger] decimal(n)[i] <= '9',
    decreases n,
{
    let d = n % 10;
    assert(digit(d) as nat == 0x30 + d);
    if n >= 10 {
        decimal_has_figures(n / 10);
    }
}

/// The characters of a number without a sign are digits, which are no white space.
pub proof fn digits_of_numbers(s: Seq<char>, radix: nat, max: nat)
    requires
        number(s, radix, max) is Ok,
        s[0] != '+',
    ensures
        s.len() > 0,
        forall|i: int|
            0 <= i < s.len() ==> digit_value(#[trigger] s[i], radix) is Some && !is_space(s[i]),
        radix <= 33 ==> forall|i: int| 0 <= i < s.len() ==> #[trigger] s[i] != 'x',
{
    digits_from(s, 0, 0, radix, max);
}

proof fn digits_from(s: Seq<char>, i: int, acc: nat, radix: nat, max: nat)
    requires
        0 <= i <= s.len(),
        digits_value(s, i, acc, radix, max) is Ok,
    ensures
        forall|k: int| i <= k < s.len() ==> digit_value(#[trigger] s[k], radix) is Some,
    decreases s.len() - i,
{
    if i < s.len() {
        digits_from(s, i + 1, acc * radix + digit_value(s[i], radix)->0, radix, max);
    }
}

/// A text that neither starts nor ends with white space is what is left of it with white
/// space around it.
pub proof fn trimming_leaves(a: Seq<char>, s: Seq<char>, b: Seq<char>)
    requires
        s.len() > 0,
        !is_space(s[0]),
        !is_space(s.last()),
        forall|i: int| 0 <= i < a.len() ==> is_space(#[trigger] a[i]),
        forall|i: int| 0 <= i < b.len() ==> is_space(#[trigger] b[i]),
    ensures
        trimmed(a + s + b) == s,
    decreases a.len() + b.len(),
{
    let all = a + s + b;
    if a.len() > 0 {
        assert(all[0] == a[0]);
        assert(all.skip(1) =~= a.skip(1) + s + b);
        assert forall|i: int| 0 <= i < a.skip(1).len() implies is_space(
            #[trigger] a.skip(1)[i],
        ) by {
            assert(a.skip(1)[i] == a[i + 1]);
        }
        trimming_leaves(a.skip(1), s, b);
    } else {
        assert(all[0] == s[0]);
        if b.len() > 0 {
            assert(all.last() == b.last());
            assert(b.last() == b[b.len() - 1]);
            assert(all.drop_last() =~= a + s + b.drop_last());
            assert forall|i: int| 0 <= i < b.drop_last().len() implies is_space(
                #[trigger] b.drop_last()[i],
            ) by {
                assert(b.drop_last()[i] == b[i]);
            }
            trimming_leaves(a, s, b.drop_last());
        } else {
            assert(all =~= s);
        }
    }
}

} // verus!
