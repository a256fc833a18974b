//! Laws of texts and of numbers in them.
use vstd::prelude::*;

use crate::text::{
    blank, dec_count, dec_text, digit, digit_value, first_index, hex2_text, hex4_text, hex_text,
    in_radix, is_blank, is_less, is_solid, is_white_space, join2, join3, join4, last_index,
    parse_number, pieces, same_opt_text, same_text, scanned, signed_dec_text, solid, split_on,
    starts_with, str_texts, text_less, trim, trimmed_end, trimmed_start, white_space, NumberFault,
};

verus! {

/// White space is what Unicode calls so.
pub proof fn white_space_is_unicode(c: char, result: bool)
    requires
        call_ensures(is_white_space, (c,), result),
    ensures
        result <==> {
            let u = c as u32;
            ||| u == 0x09 || u == 0x0a || u == 0x0b || u == 0x0c || u == 0x0d || u == 0x20
            ||| u == 0x85 || u == 0xa0 || u == 0x1680
            ||| 0x2000 <= u <= 0x200a
            ||| u == 0x2028 || u == 0x2029 || u == 0x202f || u == 0x205f || u == 0x3000
        },
{
}

/// A blank text is white space throughout, a solid one holds none.
pub proof fn blank_and_solid_texts(s: &str, is_all: bool, is_none: bool)
    requires
        call_ensures(is_blank, (s,), is_all),
        call_ensures(is_solid, (s,), is_none),
    ensures
        is_all <==> forall|i: int| 0 <= i < s@.len() ==> white_space(#[trigger] s@[i]),
        is_none <==> forall|i: int| 0 <= i < s@.len() ==> !white_space(#[trigger] s@[i]),
{
}

proof fn start_is_trimmed(s: Seq<char>)
    ensures
        exists|a: Seq<char>| #[trigger] blank(a) && s == a + trimmed_start(s),
        trimmed_start(s).len() > 0 ==> !white_space(trimmed_start(s)[0]),
    decreases s.len(),
{
    if s.len() > 0 && white_space(s[0]) {
        let rest = s.drop_first();
        start_is_trimmed(rest);
        let a = choose|a: Seq<char>| #[trigger] blank(a) && rest == a + trimmed_start(rest);
        let b = seq![s[0]] + a;
        assert(blank(b)) by {
            assert forall|i: int| 0 <= i < b.len() implies white_space(#[trigger] b[i]) by {
                if i > 0 {
                    assert(b[i] == a[i - 1]);
                }
            }
        }
        assert(s =~= seq![s[0]] + rest);
        assert(s =~= b + trimmed_start(s));
    } else {
        let none = Seq::<char>::empty();
        assert(blank(none));
        assert(s =~= none + s);
    }
}

proof fn end_is_trimmed(s: Seq<char>)
    ensures
        exists|b: Seq<char>| #[trigger] blank(b) && s == trimmed_end(s) + b,
        trimmed_end(s).len() > 0 ==> !white_space(trimmed_end(s).last()) && trimmed_end(s)[0]
            == s[0],
    decreases s.len(),
{
    if s.len() > 0 && white_space(s.last()) {
        let rest = s.drop_last();
        end_is_trimmed(rest);
        let b = choose|b: Seq<char>| #[trigger] blank(b) && rest == trimmed_end(rest) + b;
        let c = b.push(s.last());
        assert(blank(c)) by {
            assert forall|i: int| 0 <= i < c.len() implies white_space(#[trigger] c[i]) by {
                if i < b.len() {
                    assert(c[i] == b[i]);
                }
            }
        }
        assert(s =~= rest.push(s.last()));
        assert(s =~= trimmed_end(s) + c);
        if trimmed_end(s).len() > 0 {
            assert(rest[0] == s[0]);
        }
    } else {
        let none = Seq::<char>::empty();
        assert(blank(none));
        assert(s =~= s + none);
    }
}

/// Trimming takes off white space at both ends and nothing else.
pub proof fn trimming_takes_off_white_space(s: &str, result: &str)
    requires
        call_ensures(trim, (s,), result),
    ensures
        exists|a: Seq<char>, b: Seq<char>|
            #[trigger] blank(a) && #[trigger] blank(b) && s@ == a + result@ + b,
        result@.len() > 0 ==> !white_space(result@[0]) && !white_space(result@.last()),
{
    start_is_trimmed(s@);
    let inner = trimmed_start(s@);
    end_is_trimmed(inner);
    let a = choose|a: Seq<char>| #[trigger] blank(a) && s@ == a + inner;
    let b = choose|b: Seq<char>| #[trigger] blank(b) && inner == trimmed_end(inner) + b;
    assert(s@ =~= a + result@ + b);
}

/// The first and the last place of a character are found.
pub proof fn places_are_found(
    s: &str,
    c: char,
    first: Option<usize>,
    last: Option<usize>,
)
    requires
        call_ensures(first_index, (s, c), first),
        call_ensures(last_index, (s, c), last),
    ensures
        first is None <==> !s@.contains(c),
        last is None <==> !s@.contains(c),
        first matches Some(i) ==> i < s@.len() && s@[i as int] == c && forall|j: int|
            0 <= j < i ==> s@[j] != c,
        last matches Some(i) ==> i < s@.len() && s@[i as int] == c && forall|j: int|
            i < j < s@.len() ==> s@[j] != c,
{
    s@.index_of_first_ensures(c);
    s@.index_of_last_ensures(c);
    if first is Some {
        assert(s@.contains(s@[first->0 as int]));
    }
    if last is Some {
        assert(s@.contains(s@[last->0 as int]));
    }
}

/// The pieces with the separator between them.
pub open spec fn joined(list: Seq<Seq<char>>, separator: char) -> Seq<char>
    decreases list.len(),
{
    if list.len() == 0 {
        Seq::empty()
    } else if list.len() == 1 {
        list[0]
    } else {
        list[0] + seq![separator] + joined(list.drop_first(), separator)
    }
}

proof fn pieces_are_joined(s: Seq<char>, separator: char)
    ensures
        joined(pieces(s, separator), separator) == s,
        pieces(s, separator).len() > 0,
        forall|i: int|
            0 <= i < pieces(s, separator).len() ==> !(#[trigger] pieces(s, separator)[i]).contains(
                separator,
            ),
    decreases s.len(),
{
    s.index_of_first_ensures(separator);
    match s.index_of_first(separator) {
        Some(i) => {
            let rest = s.skip(i + 1);
            pieces_are_joined(rest, separator);
            let all = pieces(s, separator);
            assert(all =~= seq![s.take(i)] + pieces(rest, separator));
            assert(all.drop_first() =~= pieces(rest, separator));
            assert(s =~= s.take(i) + seq![separator] + rest);
            assert forall|k: int| 0 <= k < all.len() implies !(#[trigger] all[k]).contains(
                separator,
            ) by {
                if k > 0 {
                    assert(all[k] == pieces(rest, separator)[k - 1]);
                }
            }
        },
        None => {},
    }
}

/// Splitting loses nothing: the pieces hold no separator, and put together
/// again with it they are the text.
pub proof fn splitting_loses_nothing(s: &str, separator: char, list: Vec<&str>)
    requires
        call_ensures(split_on, (s, separator), list),
    ensures
        joined(str_texts(list@), separator) == s@,
        list@.len() > 0,
        forall|i: int| 0 <= i < list@.len() ==> !(#[trigger] list@[i])@.contains(separator),
{
    pieces_are_joined(s@, separator);
    assert forall|i: int| 0 <= i < list@.len() implies !(#[trigger] list@[i])@.contains(
        separator,
    ) by {
        assert(str_texts(list@)[i] == list@[i]@);
    }
}

/// The texts first differ at the place.
pub open spec fn differ_at(a: Seq<char>, b: Seq<char>, i: int) -> bool {
    &&& 0 <= i < a.len() && i < b.len()
    &&& a[i] != b[i]
    &&& forall|j: int| 0 <= j < i ==> a[j] == b[j]
}

proof fn order_is_by_first_difference(a: Seq<char>, b: Seq<char>, i: int)
    ensures
        differ_at(a, b, i) ==> (text_less(a, b) <==> (a[i] as u32) < (b[i] as u32)),
        a.is_prefix_of(b) ==> (text_less(a, b) <==> a.len() < b.len()),
        b.is_prefix_of(a) ==> !text_less(a, b),
    decreases a.len(),
{
    if a.len() > 0 && b.len() > 0 && a[0] == b[0] {
        let x = a.drop_first();
        let y = b.drop_first();
        order_is_by_first_difference(x, y, i - 1);
        if differ_at(a, b, i) {
            assert(i > 0);
            assert(x[i - 1] == a[i] && y[i - 1] == b[i]);
            assert forall|j: int| 0 <= j < i - 1 implies x[j] == y[j] by {
                assert(a[j + 1] == b[j + 1]);
            }
            assert(differ_at(x, y, i - 1));
        }
        if a.is_prefix_of(b) {
            assert(x =~= y.take(x.len() as int)) by {
                assert forall|j: int| 0 <= j < x.len() implies x[j] == y[j] by {
                    assert(a[j + 1] == b.take(a.len() as int)[j + 1]);
                }
            }
        }
        if b.is_prefix_of(a) {
            assert(y =~= x.take(y.len() as int)) by {
                assert forall|j: int| 0 <= j < y.len() implies y[j] == x[j] by {
                    assert(b[j + 1] == a.take(b.len() as int)[j + 1]);
                }
            }
        }
    } else if a.len() > 0 && b.len() > 0 {
        if a.is_prefix_of(b) {
            assert(a[0] == b.take(a.len() as int)[0]);
        }
        if b.is_prefix_of(a) {
            assert(b[0] == a.take(b.len() as int)[0]);
        }
        if differ_at(a, b, i) && i > 0 {
            assert(a[0] == b[0]);
        }
    }
}

/// Texts are ordered by the first character in which they differ, and a
/// beginning comes before the whole.
pub proof fn texts_are_ordered_by_first_difference(a: &str, b: &str, less: bool, i: int)
    requires
        call_ensures(is_less, (a, b), less),
    ensures
        differ_at(a@, b@, i) ==> (less <==> (a@[i] as u32) < (b@[i] as u32)),
        a@.is_prefix_of(b@) ==> (less <==> a@.len() < b@.len()),
        b@.is_prefix_of(a@) ==> !less,
{
    order_is_by_first_difference(a@, b@, i);
}

/// Texts are the same when their characters are; a prefix is a beginning.
pub proof fn same_texts_have_the_same_characters(
    a: &str,
    b: &str,
    same: bool,
    prefix: bool,
    x: Option<String>,
    y: Option<String>,
    both: bool,
)
    requires
        call_ensures(same_text, (a, b), same),
        call_ensures(starts_with, (a, b), prefix),
        call_ensures(same_opt_text, (&x, &y), both),
    ensures
        same <==> a@ == b@,
        prefix <==> b@.len() <= a@.len() && a@.take(b@.len() as int) == b@,
        both <==> (x is None && y is None) || (x is Some && y is Some && x->0@ == y->0@),
{
    if b@.len() <= a@.len() && a@.take(b@.len() as int) == b@ {
        assert(b@.is_prefix_of(a@));
    }
}

/// Texts are put together in their order.
pub proof fn texts_are_put_together(
    a: &str,
    b: &str,
    c: &str,
    d: &str,
    two: String,
    three: String,
    four: String,
)
    requires
        call_ensures(join2, (a, b), two),
        call_ensures(join3, (a, b, c), three),
        call_ensures(join4, (a, b, c, d), four),
    ensures
        two@ == a@ + b@,
        three@ == a@ + b@ + c@,
        four@ == a@ + b@ + c@ + d@,
{
}

/// Value of a digit, up to hexadecimal, or 16 for what is none.
pub open spec fn value_of(c: char) -> nat {
    let u = c as u32;
    if 48 <= u <= 57 {
        (u - 48) as nat
    } else if 97 <= u <= 102 {
        (u - 87) as nat
    } else if 65 <= u <= 70 {
        (u - 55) as nat
    } else {
        16
    }
}

/// All are digits of the radix.
pub open spec fn digits(s: Seq<char>, radix: nat) -> bool {
    forall|i: int| 0 <= i < s.len() ==> value_of(#[trigger] s[i]) < radix
}

/// Number that the digits stand for, the last one counting once.
pub open spec fn number(s: Seq<char>, radix: nat) -> nat
    decreases s.len(),
{
    if s.len() == 0 {
        0
    } else {
        number(s.drop_last(), radix) * radix + value_of(s.last())
    }
}

proof fn scan_goes_on(s: Seq<char>, c: char, radix: nat, limit: nat, value: nat)
    ensures
        scanned(s.push(c), radix, limit, value) == (match scanned(s, radix, limit, value) {
            Err(e) => Err::<nat, NumberFault>(e),
            Ok(v) => match digit_value(c, radix) {
                None => Err(NumberFault::InvalidDigit),
                Some(d) => if v * radix + d > limit {
                    Err(NumberFault::TooLarge)
                } else {
                    Ok(v * radix + d)
                },
            },
        }),
    decreases s.len(),
{
    reveal_with_fuel(scanned, 2);
    if s.len() == 0 {
        assert(s.push(c) =~= seq![c]);
        assert(seq![c].drop_first() =~= Seq::<char>::empty());
    } else {
        assert(s.push(c)[0] == s[0]);
        assert(s.push(c).drop_first() =~= s.drop_first().push(c));
        if let Some(d) = digit_value(s[0], radix) {
            scan_goes_on(s.drop_first(), c, radix, limit, value * radix + d);
        }
    }
}

proof fn scan_reads_the_number(s: Seq<char>, radix: nat, limit: nat)
    requires
        2 <= radix <= 16,
    ensures
        scanned(s, radix, limit, 0) is Ok <==> digits(s, radix) && number(s, radix) <= limit,
        scanned(s, radix, limit, 0) matches Ok(v) ==> v == number(s, radix),
    decreases s.len(),
{
    if s.len() > 0 {
        let rest = s.drop_last();
        let c = s.last();
        scan_reads_the_number(rest, radix, limit);
        scan_goes_on(rest, c, radix, limit, 0);
        assert(rest.push(c) =~= s);
        assert(digits(s, radix) <==> digits(rest, radix) && value_of(c) < radix) by {
            if digits(s, radix) {
                assert forall|i: int| 0 <= i < rest.len() implies value_of(#[trigger] rest[i])
                    < radix by {
                    assert(s[i] == rest[i]);
                }
                assert(value_of(s[s.len() - 1]) < radix);
            }
            if digits(rest, radix) && value_of(c) < radix {
                assert forall|i: int| 0 <= i < s.len() implies value_of(#[trigger] s[i]) < radix by {
                    if i < rest.len() {
                        assert(s[i] == rest[i]);
                    }
                }
            }
        }
        let n = number(rest, radix);
        assert(n * radix + value_of(c) >= n) by (nonlinear_arith)
            requires
                radix >= 2,
        ;
    }
}

/// A number is read off its digits, with or without a plus sign, exactly when
/// there are digits, nothing but digits, and the number is within the limit.
pub proof fn numbers_are_read(
    s: &str,
    radix: u64,
    limit: u64,
    result: std::result::Result<u64, NumberFault>,
)
    requires
        2 <= radix <= 16,
        call_ensures(parse_number, (s, radix, limit), result),
    ensures
        ({
            let body = if s@.len() > 0 && s@[0] == '+' {
                s@.drop_first()
            } else {
                s@
            };
            &&& result is Ok <==> body.len() > 0 && digits(body, radix as nat) && number(
                body,
                radix as nat,
            ) <= limit
            &&& result matches Ok(v) ==> v == number(body, radix as nat)
        }),
{
    scan_reads_the_number(s@, radix as nat, limit as nat);
    if s@.len() > 0 {
        scan_reads_the_number(s@.drop_first(), radix as nat, limit as nat);
    }
}

proof fn digit_has_its_value(d: nat)
    requires
        d < 16,
    ensures
        value_of(digit(d)) == d,
        digit(d) != '+',
{
    let all = seq!['0', '1', '2', '3', '4', '5', '6', '7', '8', '9', 'a', 'b', 'c', 'd', 'e', 'f'];
    assert(value_of(all[0]) == 0 && value_of(all[1]) == 1 && value_of(all[2]) == 2);
    assert(value_of(all[3]) == 3 && value_of(all[4]) == 4 && value_of(all[5]) == 5);
    assert(value_of(all[6]) == 6 && value_of(all[7]) == 7 && value_of(all[8]) == 8);
    assert(value_of(all[9]) == 9 && value_of(all[10]) == 10 && value_of(all[11]) == 11);
    assert(value_of(all[12]) == 12 && value_of(all[13]) == 13 && value_of(all[14]) == 14);
    assert(value_of(all[15]) == 15);
    assert(digit(d) == all[d as int]);
}

proof fn notation_stands_for_the_number(n: nat, radix: nat)
    requires
        2 <= radix <= 16,
    ensures
        number(in_radix(n, radix), radix) == n,
        digits(in_radix(n, radix), radix),
        in_radix(n, radix).len() > 0,
        in_radix(n, radix).len() > 1 ==> value_of(in_radix(n, radix)[0]) != 0,
    decreases n,
{
    let s = in_radix(n, radix);
    if n < radix {
        digit_has_its_value(n);
        assert(s =~= seq![digit(n)]);
        assert(s.drop_last() =~= Seq::<char>::empty());
        assert(number(s.drop_last(), radix) == 0);
        assert(0 * radix == 0) by (nonlinear_arith);
    } else {
        let q = n / radix;
        let r = n % radix;
        assert(q < n && r < radix && q * radix + r == n && q >= 1) by (nonlinear_arith)
            requires
                radix >= 2,
                n >= radix,
                q == n / radix,
                r == n % radix,
        ;
        notation_stands_for_the_number(q, radix);
        digit_has_its_value(r);
        let head = in_radix(q, radix);
        assert(s == head.push(digit(r)));
        assert(s.drop_last() =~= head);
        assert(s[0] == head[0]);
        if head.len() == 1 && value_of(head[0]) == 0 {
            assert(head.drop_last() =~= Seq::<char>::empty());
            assert(number(head.drop_last(), radix) == 0);
            assert(0 * radix == 0) by (nonlinear_arith);
            assert(number(head, radix) == 0);
        }
    }
}

/// A number in decimal stands for itself, without a leading zero.
pub proof fn decimals_stand_for_the_number(n: u64, text: String, count: usize, counted: String)
    requires
        call_ensures(dec_text, (n,), text),
        call_ensures(dec_count, (count,), counted),
    ensures
        digits(text@, 10) && number(text@, 10) == n,
        text@.len() > 0,
        text@.len() > 1 ==> text@[0] != '0',
        digits(counted@, 10) && number(counted@, 10) == count,
{
    notation_stands_for_the_number(n as nat, 10);
    notation_stands_for_the_number(count as nat, 10);
}

/// A signed number has its sign and the digits of its size.
pub proof fn signed_decimals_have_their_sign(n: i64, text: String)
    requires
        call_ensures(signed_dec_text, (n,), text),
    ensures
        n < 0 ==> text@.len() > 1 && text@[0] == '-' && number(text@.drop_first(), 10) == -n,
        n >= 0 ==> digits(text@, 10) && number(text@, 10) == n,
{
    reveal_strlit("-");
    if n < 0 {
        notation_stands_for_the_number((-n) as nat, 10);
        let body = crate::text::dec((-n) as nat);
        assert(text@ =~= seq!['-'] + body);
        assert(text@.drop_first() =~= body);
    } else {
        notation_stands_for_the_number(n as nat, 10);
    }
}

/// A number in hexadecimal stands for itself; a width is filled with zeros.
pub proof fn hexadecimals_stand_for_the_number(
    n: u64,
    text: String,
    two: String,
    four: String,
)
    requires
        call_ensures(hex_text, (n,), text),
        call_ensures(hex2_text, (n,), two),
        call_ensures(hex4_text, (n,), four),
    ensures
        digits(text@, 16) && number(text@, 16) == n,
        n < 16 ==> two@ == seq!['0'] + text@,
        n >= 16 ==> two@ == text@,
        n < 16 ==> four@ == seq!['0', '0', '0'] + text@,
        16 <= n < 256 ==> four@ == seq!['0', '0'] + text@,
        256 <= n < 4096 ==> four@ == seq!['0'] + text@,
        n >= 4096 ==> four@ == text@,
{
    notation_stands_for_the_number(n as nat, 16);
    reveal_strlit("0");
    reveal_strlit("00");
    reveal_strlit("000");
    assert("0"@ =~= seq!['0']);
    assert("00"@ =~= seq!['0', '0']);
    assert("000"@ =~= seq!['0', '0', '0']);
}

} // verus!
