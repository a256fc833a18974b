//! Text primitives over `Seq<char>` models: classification, ordering, number
//! rendering and parsing, and message assembly.
use vstd::prelude::*;
use vstd::string::*;
use vstd::utf8::*;

verus! {

/// The Unicode `White_Space` property.
pub open spec fn white_space(c: char) -> bool {
    let u = c as u32;
    ||| 0x09 <= u <= 0x0d
    ||| u == 0x20
    ||| u == 0x85
    ||| u == 0xa0
    ||| u == 0x1680
    ||| 0x2000 <= u <= 0x200a
    ||| u == 0x2028
    ||| u == 0x2029
    ||| u == 0x202f
    ||| u == 0x205f
    ||| u == 0x3000
}

/// Visible ASCII: `'!'` through `'~'`.
pub open spec fn ascii_graphic(c: char) -> bool {
    0x21 <= c as u32 <= 0x7e
}

/// Tests whether `c` is a visible ASCII character.
pub fn is_ascii_graphic(c: char) -> (result: bool)
    ensures
        result == ascii_graphic(c),
{
    let u: u32 = c as u32;
    0x21 <= u && u <= 0x7e
}

/// ASCII letters.
pub open spec fn ascii_alphabetic(c: char) -> bool {
    0x41 <= c as u32 <= 0x5a || 0x61 <= c as u32 <= 0x7a
}

/// ASCII letters and digits.
pub open spec fn ascii_alphanumeric(c: char) -> bool {
    0x30 <= c as u32 <= 0x39 || ascii_alphabetic(c)
}

/// Tests whether `c` carries the Unicode `White_Space` property.
pub fn is_white_space(c: char) -> (result: bool)
    ensures
        result == white_space(c),
{
    let u: u32 = c as u32;
    (0x09 <= u && u <= 0x0d) || u == 0x20 || u == 0x85 || u == 0xa0 || u == 0x1680 || (0x2000 <= u
        && u <= 0x200a) || u == 0x2028 || u == 0x2029 || u == 0x202f || u == 0x205f || u == 0x3000
}

/// Text made of white space only (the empty text included).
pub open spec fn blank(s: Seq<char>) -> bool {
    forall|i: int| 0 <= i < s.len() ==> white_space(#[trigger] s[i])
}

/// Tests whether `s` holds nothing but white space.
pub fn is_blank(s: &str) -> (result: bool)
    ensures
        result == blank(s@),
{
    let n: usize = s.unicode_len();
    let mut i: usize = 0;
    while i < n
        invariant
            i <= n,
            n == s@.len(),
            forall|j: int| 0 <= j < i ==> white_space(#[trigger] s@[j]),
        decreases n - i,
    {
        if !is_white_space(s.get_char(i)) {
            return false;
        }
        i = i + 1;
    }
    true
}

/// Text without any white space.
pub open spec fn solid(s: Seq<char>) -> bool {
    forall|i: int| 0 <= i < s.len() ==> !white_space(#[trigger] s[i])
}

/// Tests whether `s` is free of white space.
pub fn is_solid(s: &str) -> (result: bool)
    ensures
        result == solid(s@),
{
    let n: usize = s.unicode_len();
    let mut i: usize = 0;
    while i < n
        invariant
            i <= n,
            n == s@.len(),
            forall|j: int| 0 <= j < i ==> !white_space(#[trigger] s@[j]),
        decreases n - i,
    {
        if is_white_space(s.get_char(i)) {
            return false;
        }
        i = i + 1;
    }
    true
}

/// `s` without its leading white space.
pub open spec fn trimmed_start(s: Seq<char>) -> Seq<char>
    decreases s.len(),
{
    if s.len() > 0 && white_space(s[0]) {
        trimmed_start(s.drop_first())
    } else {
        s
    }
}

/// `s` without its trailing white space.
pub open spec fn trimmed_end(s: Seq<char>) -> Seq<char>
    decreases s.len(),
{
    if s.len() > 0 && white_space(s.last()) {
        trimmed_end(s.drop_last())
    } else {
        s
    }
}

/// `s` without leading and trailing white space.
pub open spec fn trimmed(s: Seq<char>) -> Seq<char> {
    trimmed_end(trimmed_start(s))
}

/// Removes leading and trailing white space.
pub fn trim(s: &str) -> (result: &str)
    ensures
        result@ == trimmed(s@),
{
    let n: usize = s.unicode_len();
    let mut start: usize = 0;
    assert(s@.subrange(0, n as int) =~= s@);
    while start < n && is_white_space(s.get_char(start))
        invariant
            start <= n,
            n == s@.len(),
            trimmed_start(s@.subrange(start as int, n as int)) == trimmed_start(s@),
        decreases n - start,
    {
        proof {
            assert(s@.subrange(start as int, n as int).drop_first() =~= s@.subrange(
                start + 1,
                n as int,
            ));
        }
        start = start + 1;
    }
    let ghost rest = s@.subrange(start as int, n as int);
    assert(trimmed_start(s@) == rest);
    let mut end: usize = n;
    while end > start && is_white_space(s.get_char(end - 1))
        invariant
            start <= end <= n,
            n == s@.len(),
            rest == s@.subrange(start as int, n as int),
            trimmed_end(s@.subrange(start as int, end as int)) == trimmed_end(rest),
        decreases end - start,
    {
        proof {
            let cur = s@.subrange(start as int, end as int);
            assert(cur.drop_last() =~= s@.subrange(start as int, end - 1));
            assert(cur.last() == s@[end - 1]);
        }
        end = end - 1;
    }
    proof {
        let cur = s@.subrange(start as int, end as int);
        if cur.len() > 0 {
            assert(cur.last() == s@[end - 1]);
        }
        assert(trimmed_end(cur) == cur);
    }
    s.substring_char(start, end)
}

/// Position of the first `c` in `s`.
pub fn first_index(s: &str, c: char) -> (result: Option<usize>)
    ensures
        match result {
            Some(i) => s@.index_of_first(c) == Some(i as int) && i < s@.len() && s@[i as int] == c,
            None => s@.index_of_first(c) is None && !s@.contains(c),
        },
{
    let n: usize = s.unicode_len();
    let mut i: usize = 0;
    while i < n
        invariant
            i <= n,
            n == s@.len(),
            forall|j: int| 0 <= j < i ==> #[trigger] s@[j] != c,
        decreases n - i,
    {
        if s.get_char(i) == c {
            proof {
                s@.index_of_first_ensures(c);
                assert(s@.contains(c));
                let k = s@.index_of_first(c)->0;
                assert(s@[k] == c);
                assert(s@[i as int] == c);
            }
            return Some(i);
        }
        i = i + 1;
    }
    proof {
        s@.index_of_first_ensures(c);
    }
    None
}

/// Position of the last `c` in `s`.
pub fn last_index(s: &str, c: char) -> (result: Option<usize>)
    ensures
        match result {
            Some(i) => s@.index_of_last(c) == Some(i as int) && i < s@.len() && s@[i as int] == c,
            None => s@.index_of_last(c) is None && !s@.contains(c),
        },
{
    let n: usize = s.unicode_len();
    let mut i: usize = n;
    while i > 0
        invariant
            i <= n,
            n == s@.len(),
            forall|j: int| i <= j < n ==> #[trigger] s@[j] != c,
        decreases i,
    {
        i = i - 1;
        if s.get_char(i) == c {
            proof {
                s@.index_of_last_ensures(c);
                assert(s@.contains(c));
                let k = s@.index_of_last(c)->0;
                assert(s@[k] == c);
                assert(s@[i as int] == c);
            }
            return Some(i);
        }
    }
    proof {
        s@.index_of_last_ensures(c);
    }
    None
}

/// Text between separators, in order.
pub open spec fn pieces(s: Seq<char>, separator: char) -> Seq<Seq<char>>
    decreases s.len(),
{
    match s.index_of_first(separator) {
        Some(i) => if 0 <= i < s.len() {
            seq![s.take(i)] + pieces(s.skip(i + 1), separator)
        } else {
            seq![s]
        },
        None => seq![s],
    }
}

/// Contents of a list of borrowed texts.
pub open spec fn str_texts(list: Seq<&str>) -> Seq<Seq<char>> {
    list.map_values(|s: &str| s@)
}

/// Splits a text at each separator.
pub fn split_on(s: &str, separator: char) -> (result: Vec<&str>)
    ensures
        str_texts(result@) == pieces(s@, separator),
        result@.len() > 0,
{
    let n: usize = s.unicode_len();
    let mut parts: Vec<&str> = Vec::new();
    let mut start: usize = 0;
    assert(s@.skip(0) =~= s@);
    assert(str_texts(parts@) + pieces(s@, separator) =~= pieces(s@, separator));
    loop
        invariant
            start <= n,
            n == s@.len(),
            str_texts(parts@) + pieces(s@.skip(start as int), separator) == pieces(s@, separator),
        decreases n - start,
    {
        let rest = s.substring_char(start, n);
        assert(rest@ =~= s@.skip(start as int));
        match first_index(rest, separator) {
            None => {
                let ghost before = str_texts(parts@);
                parts.push(rest);
                assert(str_texts(parts@) =~= before + seq![rest@]);
                return parts;
            },
            Some(i) => {
                let piece = rest.substring_char(0, i);
                assert(piece@ =~= rest@.take(i as int));
                let ghost before = str_texts(parts@);
                parts.push(piece);
                proof {
                    assert(str_texts(parts@) =~= before + seq![piece@]);
                    assert(rest@.skip(i + 1) =~= s@.skip(start + i + 1));
                    assert(before + (seq![piece@] + pieces(rest@.skip(i + 1), separator)) =~= (
                    before + seq![piece@]) + pieces(rest@.skip(i + 1), separator));
                }
                start = start + i + 1;
            },
        }
    }
}

/// Lexicographic order by code point, which is also the order of the UTF-8
/// encodings.
pub open spec fn text_less(a: Seq<char>, b: Seq<char>) -> bool
    decreases a.len(),
{
    if b.len() == 0 {
        false
    } else if a.len() == 0 {
        true
    } else if a[0] != b[0] {
        (a[0] as u32) < (b[0] as u32)
    } else {
        text_less(a.drop_first(), b.drop_first())
    }
}

/// The order is irreflexive.
pub proof fn text_less_irreflexive(a: Seq<char>)
    ensures
        !text_less(a, a),
    decreases a.len(),
{
    if a.len() > 0 {
        text_less_irreflexive(a.drop_first());
    }
}

/// The order is transitive.
pub proof fn text_less_transitive(a: Seq<char>, b: Seq<char>, c: Seq<char>)
    requires
        text_less(a, b),
        text_less(b, c),
    ensures
        text_less(a, c),
    decreases a.len(),
{
    if a.len() > 0 && b.len() > 0 && c.len() > 0 {
        if a[0] == b[0] && b[0] == c[0] {
            text_less_transitive(a.drop_first(), b.drop_first(), c.drop_first());
        }
    }
}

/// Any two different texts are ordered one way or the other.
pub proof fn text_less_total(a: Seq<char>, b: Seq<char>)
    ensures
        text_less(a, b) || text_less(b, a) || a == b,
    decreases a.len(),
{
    if a.len() == 0 && b.len() == 0 {
        assert(a =~= b);
    } else if a.len() > 0 && b.len() > 0 && a[0] != b[0] {
        char_u32_cast(a[0], a[0] as u32);
        char_u32_cast(b[0], b[0] as u32);
    } else if a.len() > 0 && b.len() > 0 {
        text_less_total(a.drop_first(), b.drop_first());
        if a.drop_first() == b.drop_first() {
            assert(a =~= seq![a[0]] + a.drop_first());
            assert(b =~= seq![b[0]] + b.drop_first());
        }
    }
}

/// Tests whether `a` sorts before `b`.
pub fn is_less(a: &str, b: &str) -> (result: bool)
    ensures
        result == text_less(a@, b@),
{
    let n: usize = a.unicode_len();
    let m: usize = b.unicode_len();
    let mut i: usize = 0;
    assert(a@.skip(0) =~= a@);
    assert(b@.skip(0) =~= b@);
    while i < n && i < m
        invariant
            i <= n,
            i <= m,
            n == a@.len(),
            m == b@.len(),
            text_less(a@, b@) == text_less(a@.skip(i as int), b@.skip(i as int)),
        decreases n - i,
    {
        let x: char = a.get_char(i);
        let y: char = b.get_char(i);
        assert(a@.skip(i as int)[0] == x);
        assert(b@.skip(i as int)[0] == y);
        if x != y {
            return (x as u32) < (y as u32);
        }
        assert(a@.skip(i as int).drop_first() =~= a@.skip(i + 1));
        assert(b@.skip(i as int).drop_first() =~= b@.skip(i + 1));
        i = i + 1;
    }
    i < m
}

/// Tests whether `prefix` starts `s`.
pub fn starts_with(s: &str, prefix: &str) -> (result: bool)
    ensures
        result == prefix@.is_prefix_of(s@),
{
    let n: usize = prefix.unicode_len();
    if n > s.unicode_len() {
        return false;
    }
    let head = s.substring_char(0, n);
    assert(head@ =~= s@.take(n as int));
    same_text(head, prefix)
}

/// Tests whether two texts are equal.
pub fn same_text(a: &str, b: &str) -> (result: bool)
    ensures
        result == (a@ == b@),
{
    let n: usize = a.unicode_len();
    if n != b.unicode_len() {
        return false;
    }
    let mut i: usize = 0;
    while i < n
        invariant
            i <= n,
            n == a@.len(),
            n == b@.len(),
            forall|j: int| 0 <= j < i ==> #[trigger] a@[j] == b@[j],
        decreases n - i,
    {
        if a.get_char(i) != b.get_char(i) {
            return false;
        }
        i = i + 1;
    }
    assert(a@ =~= b@);
    true
}

/// The characters of optional text.
pub open spec fn opt_text(s: Option<String>) -> Option<Seq<char>> {
    match s {
        Some(t) => Some(t@),
        None => None,
    }
}

/// Tests whether two optional texts are equal.
pub fn same_opt_text(a: &Option<String>, b: &Option<String>) -> (result: bool)
    ensures
        result == (opt_text(*a) == opt_text(*b)),
{
    match (a, b) {
        (Some(x), Some(y)) => same_text(x.as_str(), y.as_str()),
        (None, None) => true,
        _ => false,
    }
}

/// Copies optional text.
pub fn copy_opt_text(a: &Option<String>) -> (result: Option<String>)
    ensures
        result == *a,
{
    match a {
        Some(x) => Some(x.clone()),
        None => None,
    }
}

/// The characters of each text of a list.
pub open spec fn texts(list: Seq<String>) -> Seq<Seq<char>> {
    list.map_values(|s: String| s@)
}

/// Lower-case digit of value `d`.
pub open spec fn digit(d: nat) -> char {
    seq!['0', '1', '2', '3', '4', '5', '6', '7', '8', '9', 'a', 'b', 'c', 'd', 'e', 'f'][d as int]
}

/// Positional notation of `n` without leading zeros.
pub open spec fn in_radix(n: nat, radix: nat) -> Seq<char>
    decreases n,
    via in_radix_terminates
{
    if radix < 2 || n < radix {
        seq![digit(n)]
    } else {
        in_radix(n / radix, radix).push(digit(n % radix))
    }
}

#[via_fn]
proof fn in_radix_terminates(n: nat, radix: nat) {
    if radix >= 2 && n >= radix {
        assert(n / radix < n) by (nonlinear_arith)
            requires
                2 <= radix <= n,
        ;
    }
}

/// Decimal notation.
pub open spec fn dec(n: nat) -> Seq<char> {
    in_radix(n, 10)
}

/// Lower-case hexadecimal notation.
pub open spec fn hex(n: nat) -> Seq<char> {
    in_radix(n, 16)
}

/// Lower-case hexadecimal notation of at least two digits.
pub open spec fn hex2(n: nat) -> Seq<char> {
    if n < 16 {
        "0"@ + hex(n)
    } else {
        hex(n)
    }
}

fn digit_text(d: u64) -> (result: &'static str)
    requires
        d < 16,
    ensures
        result@ == seq![digit(d as nat)],
{
    let result = match d {
        0 => "0",
        1 => "1",
        2 => "2",
        3 => "3",
        4 => "4",
        5 => "5",
        6 => "6",
        7 => "7",
        8 => "8",
        9 => "9",
        10 => "a",
        11 => "b",
        12 => "c",
        13 => "d",
        14 => "e",
        _ => "f",
    };
    proof {
        reveal_strlit("0");
        reveal_strlit("1");
        reveal_strlit("2");
        reveal_strlit("3");
        reveal_strlit("4");
        reveal_strlit("5");
        reveal_strlit("6");
        reveal_strlit("7");
        reveal_strlit("8");
        reveal_strlit("9");
        reveal_strlit("a");
        reveal_strlit("b");
        reveal_strlit("c");
        reveal_strlit("d");
        reveal_strlit("e");
        reveal_strlit("f");
        assert(result@ =~= seq![digit(d as nat)]);
    }
    result
}

/// Renders `n` in `radix`.
pub fn radix_text(n: u64, radix: u64) -> (result: String)
    requires
        2 <= radix <= 16,
    ensures
        result@ == in_radix(n as nat, radix as nat),
    decreases n,
{
    if n < radix {
        digit_text(n).to_owned()
    } else {
        assert(n / radix < n) by (nonlinear_arith)
            requires
                2 <= radix <= n,
        ;
        assert(n % radix < radix) by (nonlinear_arith)
            requires
                2 <= radix,
        ;
        let mut s = radix_text(n / radix, radix);
        let d = digit_text(n % radix);
        let ghost before = s@;
        s.append(d);
        assert(s@ =~= before.push(digit((n % radix) as nat)));
        s
    }
}

/// Renders `n` in decimal.
pub fn dec_text(n: u64) -> (result: String)
    ensures
        result@ == dec(n as nat),
{
    radix_text(n, 10)
}

/// Renders a count in decimal.
pub fn dec_count(n: usize) -> (result: String)
    ensures
        result@ == dec(n as nat),
{
    radix_text(n as u64, 10)
}

/// Renders `n` in hexadecimal.
pub fn hex_text(n: u64) -> (result: String)
    ensures
        result@ == hex(n as nat),
{
    radix_text(n, 16)
}

/// Renders `n` in hexadecimal with at least two digits.
pub fn hex2_text(n: u64) -> (result: String)
    ensures
        result@ == hex2(n as nat),
{
    if n < 16 {
        join2("0", hex_text(n).as_str())
    } else {
        hex_text(n)
    }
}

/// Lower-case hexadecimal notation of at least four digits.
pub open spec fn hex4(n: nat) -> Seq<char> {
    if n < 16 {
        "000"@ + hex(n)
    } else if n < 256 {
        "00"@ + hex(n)
    } else if n < 4096 {
        "0"@ + hex(n)
    } else {
        hex(n)
    }
}

/// Renders `n` in hexadecimal with at least four digits.
pub fn hex4_text(n: u64) -> (result: String)
    ensures
        result@ == hex4(n as nat),
{
    if n < 16 {
        join2("000", hex_text(n).as_str())
    } else if n < 256 {
        join2("00", hex_text(n).as_str())
    } else if n < 4096 {
        join2("0", hex_text(n).as_str())
    } else {
        hex_text(n)
    }
}

/// Signed decimal notation.
pub open spec fn signed_dec(n: int) -> Seq<char> {
    if n < 0 {
        "-"@ + dec((-n) as nat)
    } else {
        dec(n as nat)
    }
}

/// Renders a signed number in decimal.
pub fn signed_dec_text(n: i64) -> (result: String)
    ensures
        result@ == signed_dec(n as int),
{
    if n < 0 {
        let magnitude: u64 = (-(n as i128)) as u64;
        join2("-", dec_text(magnitude).as_str())
    } else {
        dec_text(n as u64)
    }
}

/// Why a number could not be read.
#[derive(Clone, Copy, Debug, PartialEq, Eq, Structural)]
pub enum NumberFault {
    /// There is no text at all.
    Empty,
    /// A character is no digit of the radix.
    InvalidDigit,
    /// The value exceeds the largest one accepted.
    TooLarge,
}

/// Value of a digit in `radix`.
pub open spec fn digit_value(c: char, radix: nat) -> Option<nat> {
    let u = c as u32;
    let v = if 0x30 <= u <= 0x39 {
        (u - 0x30) as nat
    } else if 0x61 <= u <= 0x66 {
        (u - 0x61 + 10) as nat
    } else if 0x41 <= u <= 0x46 {
        (u - 0x41 + 10) as nat
    } else {
        16
    };
    if v < radix {
        Some(v)
    } else {
        None
    }
}

/// Reads digits left to right, stopping at the first one that is invalid or
/// takes the value past `limit`.
pub open spec fn scanned(s: Seq<char>, radix: nat, limit: nat, value: nat) -> Result<
    nat,
    NumberFault,
>
    decreases s.len(),
{
    if s.len() == 0 {
        Ok(value)
    } else {
        match digit_value(s[0], radix) {
            None => Err(NumberFault::InvalidDigit),
            Some(d) => if value * radix + d > limit {
                Err(NumberFault::TooLarge)
            } else {
                scanned(s.drop_first(), radix, limit, value * radix + d)
            },
        }
    }
}

/// An unsigned number with an optional leading `+`.
pub open spec fn parsed(s: Seq<char>, radix: nat, limit: nat) -> Result<nat, NumberFault> {
    if s.len() == 0 {
        Err(NumberFault::Empty)
    } else if s[0] == '+' {
        if s.len() == 1 {
            Err(NumberFault::InvalidDigit)
        } else {
            scanned(s.drop_first(), radix, limit, 0)
        }
    } else {
        scanned(s, radix, limit, 0)
    }
}

proof fn digit_is_read(d: nat)
    requires
        d < 10,
    ensures
        digit_value(digit(d), 10) == Some(d),
        0x30 <= digit(d) as u32 <= 0x39,
{
    assert(digit(0) == '0');
    assert(digit(1) == '1');
    assert(digit(2) == '2');
    assert(digit(3) == '3');
    assert(digit(4) == '4');
    assert(digit(5) == '5');
    assert(digit(6) == '6');
    assert(digit(7) == '7');
    assert(digit(8) == '8');
    assert(digit(9) == '9');
}

proof fn scanned_further(s: Seq<char>, c: char, radix: nat, limit: nat, value: nat)
    requires
        scanned(s, radix, limit, value) is Ok,
    ensures
        scanned(s.push(c), radix, limit, value) == scanned(
            seq![c],
            radix,
            limit,
            scanned(s, radix, limit, value)->Ok_0,
        ),
    decreases s.len(),
{
    if s.len() == 0 {
        assert(s.push(c) =~= seq![c]);
    } else {
        let d = digit_value(s[0], radix)->0;
        scanned_further(s.drop_first(), c, radix, limit, value * radix + d);
        assert(s.push(c).drop_first() =~= s.drop_first().push(c));
        assert(s.push(c)[0] == s[0]);
    }
}

/// Decimal notation is made of decimal digits, of at least one.
pub proof fn decimal_is_digits(n: nat)
    ensures
        dec(n).len() > 0,
        forall|i: int| 0 <= i < dec(n).len() ==> 0x30 <= (#[trigger] dec(n)[i]) as u32 <= 0x39,
    decreases n,
{
    if n < 10 {
        digit_is_read(n);
    } else {
        decimal_is_digits(n / 10);
        digit_is_read(n % 10);
    }
}

proof fn decimal_is_scanned(n: nat, limit: nat)
    requires
        n <= limit,
    ensures
        scanned(dec(n), 10, limit, 0) == Ok::<nat, NumberFault>(n),
    decreases n,
{
    reveal_with_fuel(scanned, 2);
    if n < 10 {
        digit_is_read(n);
        assert(dec(n).drop_first() =~= Seq::empty());
    } else {
        decimal_is_scanned(n / 10, limit);
        digit_is_read(n % 10);
        let last = digit(n % 10);
        scanned_further(dec(n / 10), last, 10, limit, 0);
        assert(seq![last].drop_first() =~= Seq::empty());
        assert((n / 10) * 10 + n % 10 == n);
    }
}

/// A number in decimal notation is read back.
pub proof fn decimal_is_read(n: nat, limit: nat)
    requires
        n <= limit,
    ensures
        parsed(dec(n), 10, limit) == Ok::<nat, NumberFault>(n),
{
    decimal_is_digits(n);
    decimal_is_scanned(n, limit);
    assert(0x30 <= dec(n)[0] as u32);
}

proof fn scanned_is_digits(s: Seq<char>, radix: nat, limit: nat, value: nat)
    requires
        scanned(s, radix, limit, value) is Ok,
    ensures
        forall|i: int| 0 <= i < s.len() ==> digit_value(#[trigger] s[i], radix) is Some,
    decreases s.len(),
{
    if s.len() > 0 {
        let d = digit_value(s[0], radix)->0;
        scanned_is_digits(s.drop_first(), radix, limit, value * radix + d);
        assert forall|i: int| 0 <= i < s.len() implies digit_value(#[trigger] s[i], radix) is Some by {
            if i > 0 {
                assert(s.drop_first()[i - 1] == s[i]);
            }
        }
    }
}

/// A text that reads as a number holds digits only, but for a leading `+`.
pub proof fn number_is_digits(s: Seq<char>, radix: nat, limit: nat)
    requires
        parsed(s, radix, limit) is Ok,
    ensures
        s.len() > 0,
        forall|i: int|
            0 <= i < s.len() ==> digit_value(#[trigger] s[i], radix) is Some || (i == 0 && s[i]
                == '+'),
{
    if s[0] == '+' {
        scanned_is_digits(s.drop_first(), radix, limit, 0);
        assert forall|i: int| 0 <= i < s.len() implies digit_value(#[trigger] s[i], radix) is Some
            || (i == 0 && s[i] == '+') by {
            if i > 0 {
                assert(s.drop_first()[i - 1] == s[i]);
            }
        }
    } else {
        scanned_is_digits(s, radix, limit, 0);
    }
}

/// A text without white space is trimmed already.
pub proof fn solid_is_trimmed(s: Seq<char>)
    requires
        solid(s),
    ensures
        trimmed(s) == s,
{
}

fn digit_of(c: char, radix: u64) -> (result: Option<u64>)
    requires
        2 <= radix <= 16,
    ensures
        match result {
            Some(d) => digit_value(c, radix as nat) == Some(d as nat) && d < radix,
            None => digit_value(c, radix as nat) is None,
        },
{
    let u: u32 = c as u32;
    let v: u64 = if 0x30 <= u && u <= 0x39 {
        (u - 0x30) as u64
    } else if 0x61 <= u && u <= 0x66 {
        (u - 0x61 + 10) as u64
    } else if 0x41 <= u && u <= 0x46 {
        (u - 0x41 + 10) as u64
    } else {
        16
    };
    if v < radix {
        Some(v)
    } else {
        None
    }
}

/// Reads an unsigned number of at most `limit`.
pub fn parse_number(s: &str, radix: u64, limit: u64) -> (result: Result<u64, NumberFault>)
    requires
        2 <= radix <= 16,
    ensures
        match result {
            Ok(v) => parsed(s@, radix as nat, limit as nat) == Ok::<nat, NumberFault>(v as nat) && v
                <= limit,
            Err(e) => parsed(s@, radix as nat, limit as nat) == Err::<nat, NumberFault>(e),
        },
{
    let n: usize = s.unicode_len();
    if n == 0 {
        return Err(NumberFault::Empty);
    }
    let mut i: usize = 0;
    if s.get_char(0) == '+' {
        if n == 1 {
            return Err(NumberFault::InvalidDigit);
        }
        i = 1;
    }
    let mut value: u64 = 0;
    assert(s@.skip(0) =~= s@);
    assert(s@.skip(1) =~= s@.drop_first());
    let ghost whole = parsed(s@, radix as nat, limit as nat);
    while i < n
        invariant
            i <= n,
            n == s@.len(),
            2 <= radix <= 16,
            value <= limit,
            whole == scanned(s@.skip(i as int), radix as nat, limit as nat, value as nat),
            whole == parsed(s@, radix as nat, limit as nat),
        decreases n - i,
    {
        let c: char = s.get_char(i);
        assert(s@.skip(i as int)[0] == c);
        assert(s@.skip(i as int).drop_first() =~= s@.skip(i + 1));
        match digit_of(c, radix) {
            None => {
                return Err(NumberFault::InvalidDigit);
            },
            Some(d) => {
                assert(value * radix + d <= u64::MAX * 16 + 16) by (nonlinear_arith)
                    requires
                        value <= u64::MAX,
                        2 <= radix <= 16,
                        d < radix,
                ;
                assert(value as u128 * radix as u128 == value * radix);
                assert(0 <= value * radix) by (nonlinear_arith);
                let next: u128 = (value as u128) * (radix as u128) + (d as u128);
                if next > limit as u128 {
                    return Err(NumberFault::TooLarge);
                }
                value = next as u64;
            },
        }
        i = i + 1;
    }
    Ok(value)
}

/// Concatenates two texts.
pub fn join2(a: &str, b: &str) -> (result: String)
    ensures
        result@ == a@ + b@,
{
    let mut s = a.to_owned();
    s.append(b);
    s
}

/// Concatenates three texts.
pub fn join3(a: &str, b: &str, c: &str) -> (result: String)
    ensures
        result@ == a@ + b@ + c@,
{
    let mut s = join2(a, b);
    s.append(c);
    s
}

/// Concatenates four texts.
pub fn join4(a: &str, b: &str, c: &str, d: &str) -> (result: String)
    ensures
        result@ == a@ + b@ + c@ + d@,
{
    let mut s = join3(a, b, c);
    s.append(d);
    s
}

/// Concatenates five texts.
pub fn join5(a: &str, b: &str, c: &str, d: &str, e: &str) -> (result: String)
    ensures
        result@ == a@ + b@ + c@ + d@ + e@,
{
    let mut s = join4(a, b, c, d);
    s.append(e);
    s
}

/// Concatenates six texts.
pub fn join6(a: &str, b: &str, c: &str, d: &str, e: &str, f: &str) -> (result: String)
    ensures
        result@ == a@ + b@ + c@ + d@ + e@ + f@,
{
    let mut s = join5(a, b, c, d, e);
    s.append(f);
    s
}

/// Concatenates seven texts.
pub fn join7(a: &str, b: &str, c: &str, d: &str, e: &str, f: &str, g: &str) -> (result: String)
    ensures
        result@ == a@ + b@ + c@ + d@ + e@ + f@ + g@,
{
    let mut s = join6(a, b, c, d, e, f);
    s.append(g);
    s
}

/// Concatenates eight texts.
pub fn join8(a: &str, b: &str, c: &str, d: &str, e: &str, f: &str, g: &str, h: &str) -> (result:
    String)
    ensures
        result@ == a@ + b@ + c@ + d@ + e@ + f@ + g@ + h@,
{
    let mut s = join7(a, b, c, d, e, f, g);
    s.append(h);
    s
}

/// Quoted and escaped rendering of a text.
pub uninterp spec fn quoted(s: Seq<char>) -> Seq<char>;

/// Renders a text with `<str as std::fmt::Debug>::fmt`: between double quotes,
/// with special characters escaped. The result depends on the text alone.
#[verifier::external_body]
pub(crate) fn quoted_text(s: &str) -> (result: String)
    ensures
        result@ == quoted(s@),
{
    format!("{:?}", s)
}

/// Quoted rendering of optional text.
pub open spec fn quoted_opt(s: Option<Seq<char>>) -> Seq<char> {
    match s {
        Some(t) => "Some("@ + quoted(t) + ")"@,
        None => "None"@,
    }
}

/// Renders optional text with its quotes.
pub fn quoted_opt_text(s: &Option<String>) -> (result: String)
    ensures
        result@ == quoted_opt(opt_text(*s)),
{
    match s {
        Some(t) => join3("Some(", quoted_text(t.as_str()).as_str(), ")"),
        None => "None".to_owned(),
    }
}

/// Rendering of an optional number.
pub open spec fn dec_opt(n: Option<nat>) -> Seq<char> {
    match n {
        Some(v) => "Some("@ + dec(v) + ")"@,
        None => "None"@,
    }
}

/// Renders an optional number.
pub fn dec_opt_text(n: Option<u64>) -> (result: String)
    ensures
        result@ == dec_opt(
            match n {
                Some(v) => Some(v as nat),
                None => None,
            },
        ),
{
    match n {
        Some(v) => join3("Some(", dec_text(v).as_str(), ")"),
        None => "None".to_owned(),
    }
}

/// Diagnostic for bytes that are not UTF-8.
pub uninterp spec fn utf8_complaint(bytes: Seq<u8>) -> Seq<char>;

/// Decodes bytes with `std::str::from_utf8`: succeeds exactly on valid UTF-8
/// and yields the encoded characters; otherwise the error, rendered, depends
/// on the bytes alone.
#[verifier::external_body]
pub(crate) fn utf8_text(bytes: &[u8]) -> (result: Result<String, String>)
    ensures
        match result {
            Ok(s) => valid_utf8(bytes@) && s@ == decode_utf8(bytes@),
            Err(e) => !valid_utf8(bytes@) && e@ == utf8_complaint(bytes@),
        },
{
    match std::str::from_utf8(bytes) {
        Ok(s) => Ok(s.to_owned()),
        Err(e) => Err(e.to_string()),
    }
}

/// Bytes read as UTF-8 with replacement characters for what is invalid.
pub uninterp spec fn lossy(bytes: Seq<u8>) -> Seq<char>;

/// Decodes bytes with `String::from_utf8_lossy`; valid UTF-8 is decoded
/// unchanged, and the result depends on the bytes alone.
#[verifier::external_body]
pub(crate) fn lossy_text(bytes: &[u8]) -> (result: String)
    ensures
        result@ == lossy(bytes@),
        valid_utf8(bytes@) ==> result@ == decode_utf8(bytes@),
{
    String::from_utf8_lossy(bytes).into_owned()
}

/// Copies bytes.
pub fn copy_bytes(bytes: &[u8]) -> (result: Vec<u8>)
    ensures
        result@ == bytes@,
{
    let mut copy: Vec<u8> = Vec::new();
    let mut i: usize = 0;
    while i < bytes.len()
        invariant
            i <= bytes@.len(),
            copy@ =~= bytes@.take(i as int),
        decreases bytes@.len() - i,
    {
        copy.push(bytes[i]);
        i = i + 1;
    }
    copy
}

} // verus!
