//! Text handling: white space, splitting, decimal numbers.

use vstd::prelude::*;

verus! {

/// The characters that Unicode gives the `White_Space` property.
pub open spec fn white_space(c: char) -> bool {
    let n = c as u32;
    ||| 0x9 <= n <= 0xd
    ||| n == 0x20
    ||| n == 0x85
    ||| n == 0xa0
    ||| n == 0x1680
    ||| 0x2000 <= n <= 0x200a
    ||| n == 0x2028
    ||| n == 0x2029
    ||| n == 0x202f
    ||| n == 0x205f
    ||| n == 0x3000
}

/// `s` without the white space that it begins with.
pub open spec fn trimmed_start(s: Seq<char>) -> Seq<char>
    decreases s.len(),
{
    if s.len() > 0 && white_space(s.first()) {
        trimmed_start(s.drop_first())
    } else {
        s
    }
}

/// `s` without the white space that it ends with.
pub open spec fn trimmed_end(s: Seq<char>) -> Seq<char>
    decreases s.len(),
{
    if s.len() > 0 && white_space(s.last()) {
        trimmed_end(s.drop_last())
    } else {
        s
    }
}

/// `s` without the white space at either end.
pub open spec fn trimmed(s: Seq<char>) -> Seq<char> {
    trimmed_end(trimmed_start(s))
}

/// The pieces of `s` between the occurrences of `sep`. There is always one more piece than there
/// are occurrences.
pub open spec fn pieces(s: Seq<char>, sep: char) -> Seq<Seq<char>>
    decreases s.len(),
{
    if s.len() == 0 {
        seq![Seq::empty()]
    } else {
        let before = pieces(s.drop_last(), sep);
        if s.last() == sep {
            before.push(Seq::empty())
        } else {
            before.drop_last().push(before.last().push(s.last()))
        }
    }
}

/// `s` cut at the first `sep`, which belongs to neither part.
pub open spec fn halves(s: Seq<char>, sep: char) -> Option<(Seq<char>, Seq<char>)> {
    match s.index_of_first(sep) {
        Some(i) => Some((s.take(i), s.skip(i + 1))),
        None => None,
    }
}

/// Whether the character is in the Unicode class `White_Space`.
pub fn is_white_space(c: char) -> (b: bool)
    ensures
        b == white_space(c),
{
    let n: u32 = c as u32;
    (0x9 <= n && n <= 0xd) || n == 0x20 || n == 0x85 || n == 0xa0 || n == 0x1680 || (0x2000 <= n
        && n <= 0x200a) || n == 0x2028 || n == 0x2029 || n == 0x202f || n == 0x205f || n == 0x3000
}

/// The characters of a text.
pub fn characters(s: &str) -> (r: Vec<char>)
    ensures
        r@ == s@,
{
    let mut r: Vec<char> = Vec::new();
    for c in it: s.chars()
        invariant
            r@ == s@.take(it.index() as int),
            it.seq() == s@,
    {
        r.push(c);
    }
    r
}

/// Whether two texts are the same.
pub fn same_text(a: &str, b: &str) -> (r: bool)
    ensures
        r == (a@ == b@),
{
    a.to_owned() == b.to_owned()
}

/// The piece of `s` from the character `from` up to, but not with, the character `to`.
fn piece(s: &str, from: usize, to: usize) -> (r: String)
    requires
        from <= to <= s@.len(),
    ensures
        r@ == s@.subrange(from as int, to as int),
{
    s.substring_char(from, to).to_owned()
}

/// `s` without the white space that it ends with.
pub fn trim_end(s: &str) -> (r: String)
    ensures
        r@ == trimmed_end(s@),
{
    let cs: Vec<char> = characters(s);
    let mut end: usize = cs.len();
    assert(s@.take(end as int) =~= s@);
    while end > 0 && is_white_space(cs[end - 1])
        invariant
            cs@ == s@,
            end <= cs@.len(),
            trimmed_end(s@) == trimmed_end(s@.take(end as int)),
        decreases end,
    {
        assert(s@.take(end as int).drop_last() =~= s@.take(end - 1));
        end = end - 1;
    }
    piece(s, 0, end)
}

/// `s` without the white space that it begins with.
pub fn trim_start(s: &str) -> (r: String)
    ensures
        r@ == trimmed_start(s@),
{
    let cs: Vec<char> = characters(s);
    let mut from: usize = 0;
    assert(s@.skip(0) =~= s@);
    while from < cs.len() && is_white_space(cs[from])
        invariant
            cs@ == s@,
            from <= cs@.len(),
            trimmed_start(s@) == trimmed_start(s@.skip(from as int)),
        decreases cs.len() - from,
    {
        assert(s@.skip(from as int).drop_first() =~= s@.skip(from + 1));
        from = from + 1;
    }
    assert(s@.skip(from as int) =~= s@.subrange(from as int, s@.len() as int));
    piece(s, from, cs.len())
}

/// `s` without the white space at either end.
pub fn trim(s: &str) -> (r: String)
    ensures
        r@ == trimmed(s@),
{
    trim_end(trim_start(s).as_str())
}

/// Splits `s` at every `sep`.
pub fn split(s: &str, sep: char) -> (r: Vec<String>)
    ensures
        r.deep_view() == pieces(s@, sep),
{
    let cs: Vec<char> = characters(s);
    let mut r: Vec<String> = Vec::new();
    let mut from: usize = 0;
    let mut i: usize = 0;
    assert(s@.take(0) =~= Seq::empty());
    assert(s@.subrange(0, 0) =~= Seq::empty());
    assert(r.deep_view().push(s@.subrange(0, 0)) =~= pieces(s@.take(0), sep));
    while i < cs.len()
        invariant
            cs@ == s@,
            from <= i <= cs@.len(),
            r.deep_view().push(s@.subrange(from as int, i as int)) == pieces(
                s@.take(i as int),
                sep,
            ),
        decreases cs.len() - i,
    {
        let ghost done = r.deep_view();
        let ghost open_piece = s@.subrange(from as int, i as int);
        assert(s@.take(i + 1).drop_last() =~= s@.take(i as int));
        assert(done.push(open_piece).drop_last() =~= done);
        if cs[i] == sep {
            r.push(piece(s, from, i));
            from = i + 1;
            assert(r.deep_view() =~= done.push(open_piece));
            assert(s@.subrange(i + 1, i + 1) =~= Seq::empty());
        } else {
            assert(s@.subrange(from as int, i + 1) =~= open_piece.push(s@[i as int]));
        }
        i = i + 1;
    }
    assert(s@.take(i as int) =~= s@);
    let ghost done = r.deep_view();
    r.push(piece(s, from, i));
    assert(r.deep_view() =~= done.push(s@.subrange(from as int, i as int)));
    r
}

/// The piece number `n` of `s`, counted from 0, where `s` is split at every `sep`.
pub fn nth_piece(s: &str, sep: char, n: usize) -> (r: Option<String>)
    ensures
        r.deep_view() == (if n < pieces(s@, sep).len() {
            Some(pieces(s@, sep)[n as int])
        } else {
            None
        }),
{
    let parts: Vec<String> = split(s, sep);
    if n < parts.len() {
        assert(parts.deep_view()[n as int] == parts@[n as int]@);
        Some(parts[n].clone())
    } else {
        None
    }
}

/// Splits `s` at the first `sep`.
pub fn split_once(s: &str, sep: char) -> (r: Option<(String, String)>)
    ensures
        match r {
            Some((a, b)) => halves(s@, sep) == Some((a@, b@)),
            None => halves(s@, sep) is None,
        },
{
    let cs: Vec<char> = characters(s);
    let mut i: usize = 0;
    proof {
        s@.index_of_first_ensures(sep);
    }
    while i < cs.len()
        invariant
            cs@ == s@,
            i <= cs@.len(),
            forall|j: int| 0 <= j < i ==> s@[j] != sep,
        decreases cs.len() - i,
    {
        if cs[i] == sep {
            proof {
                s@.index_of_first_ensures(sep);
                assert(s@.contains(sep));
                assert(s@.index_of_first(sep) == Some(i as int));
                assert(s@.skip(i + 1) =~= s@.subrange(i + 1, s@.len() as int));
            }
            return Some((piece(s, 0, i), piece(s, i + 1, cs.len())));
        }
        i = i + 1;
    }
    None
}

/// The character that stands for a number below ten.
pub open spec fn digit(d: int) -> char {
    (0x30 + d) as char
}

/// A natural number in decimal notation, without leading zeros.
pub open spec fn decimal_nat(n: nat) -> Seq<char>
    decreases n,
{
    if n < 10 {
        seq![digit(n as int)]
    } else {
        decimal_nat(n / 10).push(digit((n % 10) as int))
    }
}

/// An integer in decimal notation, with a minus sign where it is negative.
pub open spec fn decimal(n: int) -> Seq<char> {
    if n < 0 {
        seq!['-'] + decimal_nat((-n) as nat)
    } else {
        decimal_nat(n as nat)
    }
}

/// Whether a character is one of the ten decimal digits of ASCII.
pub open spec fn is_digit(c: char) -> bool {
    '0' <= c <= '9'
}

/// Whether `s` is made of decimal digits alone, and of at least one.
pub open spec fn all_digits(s: Seq<char>) -> bool {
    s.len() > 0 && forall|i: int| 0 <= i < s.len() ==> is_digit(#[trigger] s[i])
}

/// The number that a sequence of decimal digits stands for.
pub open spec fn digits_value(s: Seq<char>) -> nat
    decreases s.len(),
{
    if s.len() == 0 {
        0
    } else {
        10 * digits_value(s.drop_last()) + (s.last() as int - 0x30) as nat
    }
}

/// The number that a text stands for: decimal digits, with or without one plus sign before them.
pub open spec fn unsigned_value(s: Seq<char>) -> Option<nat> {
    if all_digits(s) {
        Some(digits_value(s))
    } else if s.len() > 0 && s.first() == '+' && all_digits(s.drop_first()) {
        Some(digits_value(s.drop_first()))
    } else {
        None
    }
}

fn digit_text(d: u32) -> (r: &'static str)
    requires
        d < 10,
    ensures
        r@ == seq![digit(d as int)],
{
    proof {
        reveal_strlit("0");
        reveal_strlit("1");
        reveal_strlit("2");
        reveal_strlit("3");
        reveal_strlit("4");
        reveal_strlit("5");
        reveal_strlit("6");
        reveal_strlit("7");
        reveal_strlit("8");
        reveal_strlit("9");
    }
    match d {
        0 => "0",
        1 => "1",
        2 => "2",
        3 => "3",
        4 => "4",
        5 => "5",
        6 => "6",
        7 => "7",
        8 => "8",
        _ => "9",
    }
}

/// Writes a natural number in decimal notation.
pub fn write_decimal_nat(n: u32) -> (r: String)
    ensures
        r@ == decimal_nat(n as nat),
    decreases n,
{
    if n < 10 {
        digit_text(n).to_owned()
    } else {
        let r: String = write_decimal_nat(n / 10).concat(digit_text(n % 10));
        assert(r@ =~= decimal_nat((n / 10) as nat).push(digit((n % 10) as int)));
        r
    }
}

/// Writes an integer in decimal notation.
pub fn write_decimal(n: i32) -> (r: String)
    ensures
        r@ == decimal(n as int),
{
    if n < 0 {
        proof {
            reveal_strlit("-");
        }
        let magnitude: u32 = (-(n as i64)) as u32;
        let r: String = "-".to_owned().concat(write_decimal_nat(magnitude).as_str());
        assert(r@ =~= seq!['-'] + decimal_nat((-(n as int)) as nat));
        r
    } else {
        write_decimal_nat(n as u32)
    }
}

/// A longer sequence of digits stands for a number that is no smaller.
proof fn lemma_digits_value_grows(s: Seq<char>, n: int)
    requires
        all_digits(s),
        0 <= n <= s.len(),
    ensures
        digits_value(s.take(n)) <= digits_value(s),
    decreases s.len() - n,
{
    if n < s.len() {
        lemma_digits_value_grows(s, n + 1);
        assert(s.take(n + 1).drop_last() =~= s.take(n));
        assert(is_digit(s[n]));
    } else {
        assert(s.take(n) =~= s);
    }
}

/// Reads the digits of `cs` from `from` on.
fn read_digits(cs: &Vec<char>, from: usize) -> (r: Option<u64>)
    requires
        from <= cs@.len(),
    ensures
        match r {
            Some(v) => all_digits(cs@.skip(from as int)) && v == digits_value(
                cs@.skip(from as int),
            ),
            None => !all_digits(cs@.skip(from as int)) || digits_value(cs@.skip(from as int))
                > u64::MAX,
        },
{
    let ghost whole = cs@.skip(from as int);
    if from == cs.len() {
        return None;
    }
    let mut value: u64 = 0;
    let mut i: usize = from;
    while i < cs.len()
        invariant
            from <= i <= cs@.len(),
            from < cs@.len(),
            whole == cs@.skip(from as int),
            forall|j: int| 0 <= j < i - from ==> is_digit(#[trigger] whole[j]),
            value == digits_value(whole.take(i - from)),
        decreases cs.len() - i,
    {
        let c: char = cs[i];
        assert(c == whole[i - from]);
        if c < '0' || c > '9' {
            return None;
        }
        let d: u64 = c as u64 - 0x30;
        assert(whole.take(i - from + 1).drop_last() =~= whole.take(i - from));
        assert(digits_value(whole.take(i - from + 1)) == 10 * value + d);
        if value > (u64::MAX - d) / 10 {
            proof {
                if all_digits(whole) {
                    lemma_digits_value_grows(whole, i - from + 1);
                }
            }
            return None;
        }
        value = value * 10 + d;
        i = i + 1;
    }
    assert(whole.take(i - from) =~= whole);
    Some(value)
}

/// Reads an unsigned number: decimal digits, with or without one plus sign before them.
pub fn parse_u64(s: &str) -> (r: Option<u64>)
    ensures
        match r {
            Some(v) => unsigned_value(s@) == Some(v as nat),
            None => unsigned_value(s@) is None || unsigned_value(s@)->0 > u64::MAX,
        },
{
    let cs: Vec<char> = characters(s);
    if cs.len() > 0 && cs[0] == '+' {
        assert(!is_digit(s@[0]));
        assert(s@.skip(1) =~= s@.drop_first());
        read_digits(&cs, 1)
    } else {
        assert(s@.skip(0) =~= s@);
        read_digits(&cs, 0)
    }
}

/// As `parse_u64`, for numbers of 32 bits.
pub fn parse_u32(s: &str) -> (r: Option<u32>)
    ensures
        match r {
            Some(v) => unsigned_value(s@) == Some(v as nat),
            None => unsigned_value(s@) is None || unsigned_value(s@)->0 > u32::MAX,
        },
{
    match parse_u64(s) {
        Some(v) => if v <= u32::MAX as u64 {
            Some(v as u32)
        } else {
            None
        },
        None => None,
    }
}

/// The truth value that a text stands for: `true` or `false`, letter for letter.
pub open spec fn bool_value(s: Seq<char>) -> Option<bool> {
    if s == "true"@ {
        Some(true)
    } else if s == "false"@ {
        Some(false)
    } else {
        None
    }
}

/// A truth value as it is written.
pub open spec fn bool_text(b: bool) -> Seq<char> {
    if b {
        "true"@
    } else {
        "false"@
    }
}

/// Writes a truth value.
pub fn write_bool(b: bool) -> (r: &'static str)
    ensures
        r@ == bool_text(b),
{
    if b {
        "true"
    } else {
        "false"
    }
}

/// A truth value that was written reads back.
pub proof fn law_truth_values_read_back(b: bool)
    ensures
        bool_value(bool_text(b)) == Some(b),
{
    reveal_strlit("true");
    reveal_strlit("false");
    assert("true"@.len() != "false"@.len());
}

/// Reads a truth value.
pub fn parse_bool(s: &str) -> (r: Option<bool>)
    ensures
        r == bool_value(s@),
{
    if same_text(s, "true") {
        Some(true)
    } else if same_text(s, "false") {
        Some(false)
    } else {
        None
    }
}

/// The texts with `sep` between each two of them.
pub open spec fn joined(parts: Seq<Seq<char>>, sep: char) -> Seq<char>
    decreases parts.len(),
{
    if parts.len() == 0 {
        Seq::empty()
    } else if parts.len() == 1 {
        parts[0]
    } else {
        joined(parts.drop_last(), sep).push(sep) + parts.last()
    }
}

/// Splitting loses nothing: the pieces with the separator between them are the text, and no piece
/// holds the separator.
pub proof fn law_pieces_make_up_the_text(s: Seq<char>, sep: char)
    ensures
        pieces(s, sep).len() > 0,
        joined(pieces(s, sep), sep) == s,
        forall|i: int|
            0 <= i < pieces(s, sep).len() ==> !(#[trigger] pieces(s, sep)[i]).contains(sep),
    decreases s.len(),
{
    if s.len() == 0 {
        assert(joined(pieces(s, sep), sep) =~= s);
    } else {
        let before = pieces(s.drop_last(), sep);
        let now = pieces(s, sep);
        law_pieces_make_up_the_text(s.drop_last(), sep);
        if s.last() == sep {
            assert(now.drop_last() =~= before);
            assert(joined(now, sep) =~= s.drop_last().push(sep));
            assert(s.drop_last().push(sep) =~= s);
        } else {
            assert(now.drop_last() =~= before.drop_last());
            assert(joined(now, sep) =~= joined(before, sep).push(s.last()));
            assert(s.drop_last().push(s.last()) =~= s);
            assert forall|i: int| 0 <= i < now.len() implies !(#[trigger] now[i]).contains(sep) by {
                if i < now.len() - 1 {
                    assert(now[i] == before[i]);
                } else {
                    assert(now[i] == before.last().push(s.last()));
                    if now[i].contains(sep) {
                        let k = choose|k: int| 0 <= k < now[i].len() && now[i][k] == sep;
                        assert(before.last()[k] == sep);
                    }
                }
            }
        }
    }
}

/// A text without the separator is its own only piece.
pub proof fn law_a_text_without_separator_is_one_piece(s: Seq<char>, sep: char)
    requires
        !s.contains(sep),
    ensures
        pieces(s, sep) == seq![s],
    decreases s.len(),
{
    if s.len() > 0 {
        if s.drop_last().contains(sep) {
            let k = choose|k: int| 0 <= k < s.drop_last().len() && s.drop_last()[k] == sep;
            assert(s[k] == sep);
        }
        law_a_text_without_separator_is_one_piece(s.drop_last(), sep);
        assert(s[s.len() - 1] != sep);
        assert(s.drop_last().push(s.last()) =~= s);
        assert(pieces(s, sep) =~= seq![s]);
    } else {
        assert(s =~= Seq::empty());
    }
}

/// Splitting two texts with the separator between them gives the pieces of the one and then those
/// of the other.
pub proof fn law_pieces_of_two_texts(a: Seq<char>, b: Seq<char>, sep: char)
    ensures
        pieces(a.push(sep) + b, sep) == pieces(a, sep) + pieces(b, sep),
    decreases b.len(),
{
    if b.len() == 0 {
        assert(a.push(sep) + b =~= a.push(sep));
        assert(a.push(sep).drop_last() =~= a);
        assert(pieces(a, sep).push(Seq::empty()) =~= pieces(a, sep) + pieces(b, sep));
    } else {
        let whole = a.push(sep) + b;
        law_pieces_make_up_the_text(b.drop_last(), sep);
        law_pieces_of_two_texts(a, b.drop_last(), sep);
        assert(whole.drop_last() =~= a.push(sep) + b.drop_last());
        assert(pieces(whole, sep) =~= pieces(a, sep) + pieces(b, sep));
    }
}

/// A natural number that is written in decimal notation reads back as itself.
pub proof fn law_decimal_reads_back(n: nat)
    ensures
        unsigned_value(decimal(n as int)) == Some(n),
{
    lemma_decimal_nat(n);
}

proof fn lemma_decimal_nat(n: nat)
    ensures
        all_digits(decimal_nat(n)),
        digits_value(decimal_nat(n)) == n,
    decreases n,
{
    if n < 10 {
        reveal_with_fuel(digits_value, 2);
        assert(decimal_nat(n).drop_last() =~= Seq::empty());
    } else {
        lemma_decimal_nat(n / 10);
        let s = decimal_nat(n);
        assert(s.drop_last() =~= decimal_nat(n / 10));
        assert forall|i: int| 0 <= i < s.len() implies is_digit(#[trigger] s[i]) by {
            if i < s.len() - 1 {
                assert(s[i] == decimal_nat(n / 10)[i]);
            }
        }
    }
}

/// Trimming leaves no white space at either end.
pub proof fn law_trimmed_ends_are_no_white_space(s: Seq<char>)
    ensures
        trimmed(s).len() > 0 ==> !white_space(trimmed(s).first()) && !white_space(
            trimmed(s).last(),
        ),
{
    lemma_trimmed_start(s);
    lemma_trimmed_end(trimmed_start(s));
}

proof fn lemma_trimmed_start(s: Seq<char>)
    ensures
        trimmed_start(s).len() > 0 ==> !white_space(trimmed_start(s).first()),
    decreases s.len(),
{
    if s.len() > 0 && white_space(s.first()) {
        lemma_trimmed_start(s.drop_first());
    }
}

proof fn lemma_trimmed_end(s: Seq<char>)
    ensures
        trimmed_end(s).len() > 0 ==> !white_space(trimmed_end(s).last()) && trimmed_end(s).first()
            == s.first(),
    decreases s.len(),
{
    if s.len() > 0 && white_space(s.last()) {
        lemma_trimmed_end(s.drop_last());
    }
}

/// Trimming the end first changes nothing for a text that is trimmed at both ends.
pub proof fn law_trimming_the_end_first_changes_nothing(s: Seq<char>)
    ensures
        trimmed(trimmed_end(s)) == trimmed(s),
    decreases s.len(),
{
    if s.len() > 0 && white_space(s.last()) {
        law_trimming_the_end_first_changes_nothing(s.drop_last());
        lemma_trimmed_start_before_white_space(s);
        let inner = trimmed_start(s.drop_last());
        if inner.len() > 0 {
            assert(inner.push(s.last()).drop_last() =~= inner);
        }
    }
}

proof fn lemma_trimmed_start_before_white_space(s: Seq<char>)
    requires
        s.len() > 0,
        white_space(s.last()),
    ensures
        trimmed_start(s) == (if trimmed_start(s.drop_last()).len() == 0 {
            Seq::empty()
        } else {
            trimmed_start(s.drop_last()).push(s.last())
        }),
    decreases s.len(),
{
    if s.len() == 1 {
        assert(s.drop_last() =~= Seq::empty());
        assert(s.drop_first() =~= Seq::empty());
    } else if white_space(s.first()) {
        assert(s.drop_first().drop_last() =~= s.drop_last().drop_first());
        lemma_trimmed_start_before_white_space(s.drop_first());
    } else {
        assert(s.drop_last().push(s.last()) =~= s);
    }
}

/// Cutting at the first separator loses nothing: the text is the first part, the separator and the
/// second part, and the first part holds no separator. Only a text without the separator is not
/// cut.
pub proof fn law_halves_make_up_the_text(s: Seq<char>, sep: char)
    ensures
        match halves(s, sep) {
            Some((a, b)) => s == a.push(sep) + b && !a.contains(sep),
            None => !s.contains(sep),
        },
{
    s.index_of_first_ensures(sep);
    match s.index_of_first(sep) {
        Some(i) => {
            assert(s.take(i).push(sep) + s.skip(i + 1) =~= s);
            if s.take(i).contains(sep) {
                let k = choose|k: int| 0 <= k < s.take(i).len() && s.take(i)[k] == sep;
                assert(s[k] == sep);
            }
        },
        None => {},
    }
}

/// Two texts with the separator between them, the first without it, are what cutting gives back.
pub proof fn law_halves_of_two_texts(a: Seq<char>, b: Seq<char>, sep: char)
    requires
        !a.contains(sep),
    ensures
        halves(a.push(sep) + b, sep) == Some((a, b)),
{
    let s = a.push(sep) + b;
    assert(s[a.len() as int] == sep);
    assert(s.contains(sep));
    s.index_of_first_ensures(sep);
    let i = s.index_of_first(sep)->0;
    if i < a.len() {
        assert(a[i] == sep);
    }
    assert(i == a.len());
    assert(s.take(i) =~= a);
    assert(s.skip(i + 1) =~= b);
}

/// The white space of Unicode: the control characters from tab to carriage return, the space, the
/// next line, the spaces with a width of their own, and the separators of lines and paragraphs.
pub proof fn law_white_space_is_that_of_unicode(c: char)
    ensures
        white_space(c) <==> ('\t' <= c <= '\r' || '\u{2000}' <= c <= '\u{200a}' || seq![
            ' ',
            '\u{85}',
            '\u{a0}',
            '\u{1680}',
            '\u{2028}',
            '\u{2029}',
            '\u{202f}',
            '\u{205f}',
            '\u{3000}',
        ].contains(c)),
{
    let others = seq![
        ' ',
        '\u{85}',
        '\u{a0}',
        '\u{1680}',
        '\u{2028}',
        '\u{2029}',
        '\u{202f}',
        '\u{205f}',
        '\u{3000}',
    ];
    assert(others[0] == ' ' && others[1] == '\u{85}' && others[2] == '\u{a0}');
    assert(others[3] == '\u{1680}' && others[4] == '\u{2028}' && others[5] == '\u{2029}');
    assert(others[6] == '\u{202f}' && others[7] == '\u{205f}' && others[8] == '\u{3000}');
}

/// Trimming takes away white space and nothing else: what is left is the text without its first
/// `from` characters and without those behind the first `to`, and all of these are white space.
pub proof fn law_trimming_takes_only_white_space(s: Seq<char>) -> (cut: (int, int))
    ensures
        0 <= cut.0 <= cut.1 <= s.len(),
        trimmed(s) == s.subrange(cut.0, cut.1),
        forall|i: int| 0 <= i < cut.0 ==> white_space(#[trigger] s[i]),
        forall|i: int| cut.1 <= i < s.len() ==> white_space(#[trigger] s[i]),
{
    let from = lemma_trimmed_start_cuts(s);
    let rest = trimmed_start(s);
    let to = law_trimming_the_end_takes_only_white_space(rest);
    assert(rest.take(to) =~= s.subrange(from, from + to));
    assert forall|i: int| from + to <= i < s.len() implies white_space(#[trigger] s[i]) by {
        assert(rest[i - from] == s[i]);
    }
    (from, from + to)
}

proof fn lemma_trimmed_start_cuts(s: Seq<char>) -> (from: int)
    ensures
        0 <= from <= s.len(),
        trimmed_start(s) == s.skip(from),
        forall|i: int| 0 <= i < from ==> white_space(#[trigger] s[i]),
    decreases s.len(),
{
    if s.len() > 0 && white_space(s.first()) {
        let rest = s.drop_first();
        let from = lemma_trimmed_start_cuts(rest);
        assert(rest.skip(from) =~= s.skip(from + 1));
        assert forall|i: int| 0 <= i < from + 1 implies white_space(#[trigger] s[i]) by {
            if i > 0 {
                assert(rest[i - 1] == s[i]);
            }
        }
        from + 1
    } else {
        assert(s.skip(0) =~= s);
        0
    }
}

/// Trimming the end takes away the white space there and nothing else, and leaves none there.
pub proof fn law_trimming_the_end_takes_only_white_space(s: Seq<char>) -> (to: int)
    ensures
        0 <= to <= s.len(),
        trimmed_end(s) == s.take(to),
        to > 0 ==> !white_space(s[to - 1]),
        forall|i: int| to <= i < s.len() ==> white_space(#[trigger] s[i]),
    decreases s.len(),
{
    if s.len() > 0 && white_space(s.last()) {
        let rest = s.drop_last();
        let to = law_trimming_the_end_takes_only_white_space(rest);
        assert(rest.take(to) =~= s.take(to));
        assert forall|i: int| to <= i < s.len() implies white_space(#[trigger] s[i]) by {
            if i < s.len() - 1 {
                assert(rest[i] == s[i]);
            }
        }
        to
    } else {
        assert(s.take(s.len() as int) =~= s);
        s.len() as int
    }
}

/// Decimal notation digit by digit: a number below ten is one of the ten digits, ten times a
/// number and a number below ten are written as the one with the digit of the other behind it, and
/// a negative number is its counterpart behind a minus sign.
pub proof fn law_decimal_digits(n: nat, d: int)
    requires
        n > 0,
        0 <= d < 10,
    ensures
        decimal(d) == seq!["0123456789"@[d]],
        decimal(10 * n + d) == decimal(n as int).push("0123456789"@[d]),
        decimal(-(n as int)) == seq!['-'] + decimal(n as int),
{
    reveal_strlit("0123456789");
    assert((10 * n + d) / 10 == n && (10 * n + d) % 10 == d) by (nonlinear_arith)
        requires
            0 <= d < 10,
    ;
    assert(digit(d) == "0123456789"@[d]);
}

/// A text stands for an unsigned number exactly when it is made of decimal digits, at least one,
/// with or without one plus sign before them.
pub proof fn law_what_is_a_number(s: Seq<char>)
    ensures
        s.len() > 0 && s[0] == '+' ==> (unsigned_value(s) is Some <==> s.len() > 1 && forall|i: int|
            1 <= i < s.len() ==> '0' <= #[trigger] s[i] <= '9'),
        !(s.len() > 0 && s[0] == '+') ==> (unsigned_value(s) is Some <==> s.len() > 0 && forall|
            i: int,
        |
            0 <= i < s.len() ==> '0' <= #[trigger] s[i] <= '9'),
{
    if s.len() > 0 && s[0] == '+' {
        let digits = s.drop_first();
        assert(!is_digit(s[0]));
        if forall|i: int| 1 <= i < s.len() ==> '0' <= #[trigger] s[i] <= '9' {
            assert forall|i: int| 0 <= i < digits.len() implies is_digit(#[trigger] digits[i]) by {
                assert(digits[i] == s[i + 1]);
            }
        }
        if all_digits(digits) {
            assert forall|i: int| 1 <= i < s.len() implies '0' <= #[trigger] s[i] <= '9' by {
                assert(is_digit(digits[i - 1]));
            }
        }
    } else if all_digits(s) {
        assert forall|i: int| 0 <= i < s.len() implies '0' <= #[trigger] s[i] <= '9' by {
            assert(is_digit(s[i]));
        }
    }
}

/// A digit alone stands for its value, and a digit more makes ten times the number and the digit;
/// a plus sign before digits changes nothing.
pub proof fn law_a_digit_more_makes_ten_times_the_number(s: Seq<char>, d: int)
    requires
        0 <= d < 10,
    ensures
        unsigned_value(seq!["0123456789"@[d]]) == Some(d as nat),
        unsigned_value(s) is Some ==> unsigned_value(s.push("0123456789"@[d])) == Some(
            (10 * unsigned_value(s)->0 + d) as nat,
        ),
        unsigned_value(s) is Some && s[0] != '+' ==> unsigned_value(seq!['+'] + s)
            == unsigned_value(s),
{
    reveal_strlit("0123456789");
    reveal_with_fuel(digits_value, 2);
    let c = "0123456789"@[d];
    assert(is_digit(c) && c as int == 0x30 + d);
    assert(seq![c].drop_last() =~= Seq::empty());
    assert(all_digits(seq![c]));
    let longer = s.push(c);
    assert(longer.drop_last() =~= s);
    if all_digits(s) {
        assert(all_digits(longer)) by {
            assert forall|i: int| 0 <= i < longer.len() implies is_digit(#[trigger] longer[i]) by {
                if i < s.len() {
                    assert(longer[i] == s[i]);
                }
            }
        }
        let signed = seq!['+'] + s;
        assert(signed.drop_first() =~= s);
        assert(!is_digit(signed[0]));
    } else if unsigned_value(s) is Some {
        let rest = s.drop_first();
        assert(longer.drop_first() =~= rest.push(c));
        assert(rest.push(c).drop_last() =~= rest);
        assert(!is_digit(longer[0]));
        assert forall|i: int| 0 <= i < rest.push(c).len() implies is_digit(
            #[trigger] rest.push(c)[i],
        ) by {
            if i < rest.len() {
                assert(rest.push(c)[i] == rest[i]);
            }
        }
    }
}

/// Only `true` and `false` stand for truth values, each for its own.
pub proof fn law_only_two_texts_are_truth_values(s: Seq<char>)
    ensures
        bool_value(s) == Some(true) <==> s == "true"@,
        bool_value(s) == Some(false) <==> s == "false"@,
{
    reveal_strlit("true");
    reveal_strlit("false");
    assert("true"@.len() != "false"@.len());
}

/// A natural number in decimal notation is made of digits alone, and begins with a zero only where
/// it is zero.
pub proof fn law_decimal_starts_with_a_digit(n: nat)
    ensures
        decimal(n as int).len() > 0,
        forall|i: int|
            0 <= i < decimal(n as int).len() ==> '0' <= #[trigger] decimal(n as int)[i] <= '9',
        decimal(n as int)[0] == '0' <==> n == 0,
{
    lemma_decimal_nat(n);
    lemma_first_digit(n);
    assert forall|i: int| 0 <= i < decimal(n as int).len() implies '0' <= #[trigger] decimal(
        n as int,
    )[i] <= '9' by {
        assert(is_digit(decimal_nat(n)[i]));
    }
}

proof fn lemma_first_digit(n: nat)
    ensures
        decimal_nat(n).len() > 0,
        decimal_nat(n)[0] == '0' <==> n == 0,
    decreases n,
{
    if n >= 10 {
        lemma_first_digit(n / 10);
    }
}

} // verus!
