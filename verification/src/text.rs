//! Text helpers: splitting, trimming, case-insensitive comparison and decimal numbers.
use vstd::prelude::*;
use vstd::string::*;

verus! {

/// The pieces of `s` between the occurrences of `sep`: a separator opens a new piece, any other
/// character extends the last one.
pub open spec fn pieces(s: Seq<char>, sep: char) -> Seq<Seq<char>>
    decreases s.len(),
{
    if s.len() == 0 {
        seq![Seq::<char>::empty()]
    } else {
        let before = pieces(s.drop_last(), sep);
        if s.last() == sep {
            before.push(Seq::empty())
        } else {
            before.drop_last().push(before.last().push(s.last()))
        }
    }
}

/// The contents of a list of strings.
pub open spec fn texts(v: Seq<String>) -> Seq<Seq<char>> {
    v.map_values(|t: String| t@)
}

/// The characters of a string, in order.
pub fn chars_of(s: &str) -> (v: Vec<char>)
    ensures
        v@ == s@,
{
    let mut v: Vec<char> = Vec::new();
    for c in it: s.chars()
        invariant
            it.seq() == s@,
            v@ == s@.take(it.index()),
    {
        v.push(c);
    }
    v
}

/// Splits `s` at every `sep`.
pub fn split(s: &str, sep: char) -> (v: Vec<String>)
    ensures
        texts(v@) == pieces(s@, sep),
{
    let chars = chars_of(s);
    let mut v: Vec<String> = Vec::new();
    let mut start: usize = 0;
    let mut i: usize = 0;
    while i < chars.len()
        invariant
            chars@ == s@,
            start <= i <= chars.len(),
            pieces(s@.take(i as int), sep).len() > 0,
            texts(v@) == pieces(s@.take(i as int), sep).drop_last(),
            s@.subrange(start as int, i as int) == pieces(s@.take(i as int), sep).last(),
        decreases chars.len() - i,
    {
        let ghost before = pieces(s@.take(i as int), sep);
        assert(s@.take(i + 1).drop_last() == s@.take(i as int));
        if chars[i] == sep {
            let ghost old_v = v@;
            v.push(s.substring_char(start, i).to_owned());
            assert(texts(v@) == texts(old_v).push(before.last()));
            assert(before == before.drop_last().push(before.last()));
            start = i + 1;
        } else {
            assert(s@.subrange(start as int, i + 1) == s@.subrange(start as int, i as int).push(
                s@[i as int],
            ));
        }
        i = i + 1;
    }
    assert(s@.take(i as int) == s@);
    let ghost old_v = v@;
    v.push(s.substring_char(start, i).to_owned());
    assert(texts(v@) == texts(old_v).push(pieces(s@, sep).last()));
    v
}

/// Unicode's `White_Space` characters.
pub open spec fn white_space(c: char) -> bool {
    let n = c as u32;
    ||| 0x09 <= n <= 0x0d
    ||| n == 0x20
    ||| n == 0x85
    ||| n == 0xa0
    ||| n == 0x1680
    ||| 0x2000 <= n <= 0x200a
    ||| n == 0x2028
    ||| n == 0x2029
    ||| n == 0x202f
    ||| n == 0x205f
    ||| n == 0x3000
}

/// Whether `c` is white space.
pub fn is_white_space(c: char) -> (r: bool)
    ensures
        r == white_space(c),
{
    let n: u32 = c as u32;
    (0x09 <= n && n <= 0x0d) || n == 0x20 || n == 0x85 || n == 0xa0 || n == 0x1680 || (0x2000 <= n
        && n <= 0x200a) || n == 0x2028 || n == 0x2029 || n == 0x202f || n == 0x205f || n == 0x3000
}

/// `s` without its leading white space.
pub open spec fn trimmed_start(s: Seq<char>) -> Seq<char>
    decreases s.len(),
{
    if s.len() > 0 && white_space(s[0]) {
        trimmed_start(s.drop_first())
    } else {
        s
    }
}

/// `s` without its trailing white space.
pub open spec fn trimmed_end(s: Seq<char>) -> Seq<char>
    decreases s.len(),
{
    if s.len() > 0 && white_space(s.last()) {
        trimmed_end(s.drop_last())
    } else {
        s
    }
}

/// `s` without the white space around it.
pub open spec fn trimmed(s: Seq<char>) -> Seq<char> {
    trimmed_end(trimmed_start(s))
}

/// Removes the white space around `s`.
pub fn trim(s: &str) -> (r: String)
    ensures
        r@ == trimmed(s@),
{
    let chars = chars_of(s);
    let mut start: usize = 0;
    assert(s@.skip(0) == s@);
    while start < chars.len() && is_white_space(chars[start])
        invariant
            chars@ == s@,
            start <= chars.len(),
            trimmed_start(s@) == trimmed_start(s@.skip(start as int)),
        decreases chars.len() - start,
    {
        assert(s@.skip(start as int).drop_first() == s@.skip(start + 1));
        start = start + 1;
    }
    let ghost rest = s@.skip(start as int);
    assert(trimmed_start(s@) == rest);
    let mut end: usize = chars.len();
    assert(rest.take(end - start) == rest);
    while start < end && is_white_space(chars[end - 1])
        invariant
            chars@ == s@,
            start <= end <= chars.len(),
            rest == s@.skip(start as int),
            trimmed_end(rest) == trimmed_end(rest.take(end - start)),
        decreases end - start,
    {
        assert(rest.take(end - start).drop_last() == rest.take(end - 1 - start));
        end = end - 1;
    }
    assert(rest.take(end - start) == s@.subrange(start as int, end as int));
    s.substring_char(start, end).to_owned()
}

/// `c` with the letters `A` to `Z` in lower case.
pub open spec fn ascii_lower(c: char) -> char {
    if 'A' <= c <= 'Z' {
        ((c as u32) + 32) as char
    } else {
        c
    }
}

/// Whether two texts are equal when the case of ASCII letters is ignored.
pub open spec fn same_ignoring_case(a: Seq<char>, b: Seq<char>) -> bool {
    &&& a.len() == b.len()
    &&& forall|i: int| 0 <= i < a.len() ==> ascii_lower(#[trigger] a[i]) == ascii_lower(b[i])
}

fn lower(c: char) -> (r: u32)
    ensures
        r == ascii_lower(c) as u32,
{
    let n: u32 = c as u32;
    if 'A' <= c && c <= 'Z' {
        n + 32
    } else {
        n
    }
}

/// Compares two texts, ignoring the case of ASCII letters.
pub fn eq_ignore_ascii_case(a: &str, b: &str) -> (r: bool)
    ensures
        r == same_ignoring_case(a@, b@),
{
    let x = chars_of(a);
    let y = chars_of(b);
    if x.len() != y.len() {
        return false;
    }
    let mut i: usize = 0;
    while i < x.len()
        invariant
            x@ == a@,
            y@ == b@,
            x.len() == y.len(),
            i <= x.len(),
            forall|j: int| 0 <= j < i ==> ascii_lower(#[trigger] a@[j]) == ascii_lower(b@[j]),
        decreases x.len() - i,
    {
        if lower(x[i]) != lower(y[i]) {
            assert(ascii_lower(a@[i as int]) != ascii_lower(b@[i as int]));
            return false;
        }
        i = i + 1;
    }
    true
}

/// The part of `s` after its last `sep`; all of `s` if it holds none.
pub open spec fn after_last(s: Seq<char>, sep: char) -> Seq<char>
    decreases s.len(),
{
    if s.len() == 0 || s.last() == sep {
        Seq::empty()
    } else {
        after_last(s.drop_last(), sep).push(s.last())
    }
}

/// Cuts off everything up to the last `sep`.
pub fn tail_after(s: &str, sep: char) -> (r: String)
    ensures
        r@ == after_last(s@, sep),
{
    let chars = chars_of(s);
    let mut start: usize = 0;
    let mut i: usize = 0;
    while i < chars.len()
        invariant
            chars@ == s@,
            start <= i <= chars.len(),
            after_last(s@.take(i as int), sep) == s@.subrange(start as int, i as int),
        decreases chars.len() - i,
    {
        assert(s@.take(i + 1).drop_last() == s@.take(i as int));
        if chars[i] == sep {
            start = i + 1;
        } else {
            assert(s@.subrange(start as int, i + 1) == s@.subrange(start as int, i as int).push(
                s@[i as int],
            ));
        }
        i = i + 1;
    }
    assert(s@.take(i as int) == s@);
    s.substring_char(start, i).to_owned()
}

/// The decimal digit of `n`.
pub open spec fn digit(n: int) -> char {
    (n + '0' as u32) as char
}

/// `n` written in decimal, without leading zeros.
pub open spec fn decimal(n: nat) -> Seq<char>
    decreases n,
{
    if n < 10 {
        seq![digit(n as int)]
    } else {
        decimal(n / 10).push(digit((n % 10) as int))
    }
}

fn digit_text(n: u128) -> (r: &'static str)
    requires
        n < 10,
    ensures
        r@ == seq![digit(n as int)],
{
    proof {
        reveal_strlit("0");
        reveal_strlit("1");
        reveal_strlit("2");
        reveal_strlit("3");
        reveal_strlit("4");
        reveal_strlit("5");
        reveal_strlit("6");
        reveal_strlit("7");
        reveal_strlit("8");
        reveal_strlit("9");
    }
    if n == 0 {
        "0"
    } else if n == 1 {
        "1"
    } else if n == 2 {
        "2"
    } else if n == 3 {
        "3"
    } else if n == 4 {
        "4"
    } else if n == 5 {
        "5"
    } else if n == 6 {
        "6"
    } else if n == 7 {
        "7"
    } else if n == 8 {
        "8"
    } else {
        "9"
    }
}

/// Writes `n` in decimal.
pub fn to_decimal(n: u128) -> (r: String)
    ensures
        r@ == decimal(n as nat),
    decreases n,
{
    if n < 10 {
        digit_text(n).to_owned()
    } else {
        to_decimal(n / 10).concat(digit_text(n % 10))
    }
}

/// Whether `c` is one of `0` to `9`.
pub open spec fn is_digit(c: char) -> bool {
    '0' <= c <= '9'
}

/// The number that a text of decimal digits stands for.
pub open spec fn value_of(s: Seq<char>) -> nat
    decreases s.len(),
{
    if s.len() == 0 {
        0
    } else {
        10 * value_of(s.drop_last()) + (s.last() as u32 - '0' as u32) as nat
    }
}

/// `s` without a leading plus sign.
pub open spec fn unsigned_part(s: Seq<char>) -> Seq<char> {
    if s.len() > 0 && s[0] == '+' {
        s.drop_first()
    } else {
        s
    }
}

/// The 16-bit number that `s` stands for: decimal digits, after an optional plus sign.
pub open spec fn u16_of(s: Seq<char>) -> Option<u16> {
    let digits = unsigned_part(s);
    if digits.len() > 0 && (forall|i: int| 0 <= i < digits.len() ==> is_digit(#[trigger] digits[i]))
        && value_of(digits) <= u16::MAX {
        Some(value_of(digits) as u16)
    } else {
        None
    }
}

proof fn value_of_prefix(s: Seq<char>, n: int)
    requires
        0 <= n <= s.len(),
        forall|i: int| 0 <= i < s.len() ==> is_digit(#[trigger] s[i]),
    ensures
        value_of(s.take(n)) <= value_of(s),
    decreases s.len() - n,
{
    if n < s.len() {
        value_of_prefix(s, n + 1);
        assert(s.take(n + 1).drop_last() == s.take(n));
    } else {
        assert(s.take(n) == s);
    }
}

/// Reads a 16-bit number.
pub fn parse_u16(s: &str) -> (r: Option<u16>)
    ensures
        r == u16_of(s@),
{
    let chars = chars_of(s);
    let start: usize = if chars.len() > 0 && chars[0] == '+' {
        1
    } else {
        0
    };
    let ghost digits = unsigned_part(s@);
    assert(digits == s@.skip(start as int));
    if chars.len() == start {
        return None;
    }
    let mut i: usize = start;
    let mut n: u32 = 0;
    while i < chars.len()
        invariant
            chars@ == s@,
            start <= i <= chars.len(),
            digits == s@.skip(start as int),
            forall|j: int| 0 <= j < i - start ==> is_digit(#[trigger] digits[j]),
            n == value_of(digits.take(i - start)),
            n <= u16::MAX,
            digits == unsigned_part(s@),
        decreases chars.len() - i,
    {
        let c = chars[i];
        assert(digits[i - start] == c);
        if c < '0' || c > '9' {
            return None;
        }
        assert(digits.take(i + 1 - start).drop_last() == digits.take(i - start));
        n = 10 * n + (c as u32 - '0' as u32);
        i = i + 1;
        if n > u16::MAX as u32 {
            proof {
                if forall|j: int| 0 <= j < digits.len() ==> is_digit(#[trigger] digits[j]) {
                    value_of_prefix(digits, i - start);
                }
            }
            return None;
        }
    }
    assert(digits.take(i - start) == digits);
    Some(n as u16)
}

/// Texts with `sep` between them.
pub open spec fn join(list: Seq<Seq<char>>, sep: char) -> Seq<char>
    decreases list.len(),
{
    if list.len() == 0 {
        Seq::empty()
    } else if list.len() == 1 {
        list[0]
    } else {
        join(list.drop_last(), sep).push(sep) + list.last()
    }
}

/// The pieces of a text hold no separator, and put together again they are the text.
pub proof fn pieces_make_up_the_text(s: Seq<char>, sep: char)
    ensures
        pieces(s, sep).len() > 0,
        forall|i: int| 0 <= i < pieces(s, sep).len() ==> !(#[trigger] pieces(s, sep)[i]).contains(sep),
        join(pieces(s, sep), sep) == s,
    decreases s.len(),
{
    let now = pieces(s, sep);
    if s.len() > 0 {
        let t = s.drop_last();
        let before = pieces(t, sep);
        pieces_make_up_the_text(t, sep);
        assert(s == t.push(s.last()));
        if s.last() == sep {
            assert(now.drop_last() == before);
            assert(join(before, sep).push(sep) + Seq::<char>::empty() == s);
        } else {
            let longer = before.last().push(s.last());
            assert(!longer.contains(sep)) by {
                if longer.contains(sep) {
                    let k = choose|k: int| 0 <= k < longer.len() && longer[k] == sep;
                    assert(before.last()[k] == sep);
                    assert(before[before.len() - 1].contains(sep));
                }
            }
            assert(now.drop_last() == before.drop_last());
            if before.len() > 1 {
                let head = join(before.drop_last(), sep).push(sep);
                assert(head + before.last().push(s.last()) == (head + before.last()).push(s.last()));
            }
        }
    }
}

/// A text without a separator is its only piece.
pub proof fn pieces_of_text_without(s: Seq<char>, sep: char)
    requires
        !s.contains(sep),
    ensures
        pieces(s, sep) == seq![s],
    decreases s.len(),
{
    if s.len() > 0 {
        let t = s.drop_last();
        assert(!t.contains(sep)) by {
            if t.contains(sep) {
                let k = choose|k: int| 0 <= k < t.len() && t[k] == sep;
                assert(s[k] == sep);
            }
        }
        assert(s[s.len() - 1] == s.last());
        pieces_of_text_without(t, sep);
        assert(s == t.push(s.last()));
    } else {
        assert(s == Seq::<char>::empty());
    }
}

/// What follows the last separator is a piece of its own, after those of what comes before it.
pub proof fn pieces_of_two(a: Seq<char>, b: Seq<char>, sep: char)
    requires
        !b.contains(sep),
    ensures
        pieces(a.push(sep) + b, sep) == pieces(a, sep).push(b),
    decreases b.len(),
{
    let s = a.push(sep) + b;
    if b.len() == 0 {
        assert(s == a.push(sep));
        assert(s.drop_last() == a);
        assert(b == Seq::<char>::empty());
    } else {
        let c = b.drop_last();
        assert(!c.contains(sep)) by {
            if c.contains(sep) {
                let k = choose|k: int| 0 <= k < c.len() && c[k] == sep;
                assert(b[k] == sep);
            }
        }
        assert(b[b.len() - 1] == b.last());
        pieces_of_two(a, c, sep);
        assert(s.drop_last() == a.push(sep) + c);
        assert(s.last() == b.last());
        assert(c.push(b.last()) == b);
        assert(pieces(a, sep).push(c).drop_last() == pieces(a, sep));
    }
}

/// Texts that hold no separator are the pieces of what they make up together.
pub proof fn joined_texts_are_the_pieces(list: Seq<Seq<char>>, sep: char)
    requires
        list.len() > 0,
        forall|i: int| 0 <= i < list.len() ==> !(#[trigger] list[i]).contains(sep),
    ensures
        pieces(join(list, sep), sep) == list,
    decreases list.len(),
{
    if list.len() == 1 {
        pieces_of_text_without(list[0], sep);
        assert(list == seq![list[0]]);
    } else {
        let front = list.drop_last();
        assert forall|i: int| 0 <= i < front.len() implies !(#[trigger] front[i]).contains(sep) by {
            assert(front[i] == list[i]);
        }
        joined_texts_are_the_pieces(front, sep);
        assert(list.last() == list[list.len() - 1]);
        pieces_of_two(join(front, sep), list.last(), sep);
        assert(front.push(list.last()) == list);
    }
}

/// A text that neither begins nor ends with white space.
pub open spec fn is_trimmed(s: Seq<char>) -> bool {
    s.len() > 0 ==> !white_space(s[0]) && !white_space(s.last())
}

proof fn trimmed_start_properties(s: Seq<char>)
    ensures
        trimmed_start(s).len() <= s.len(),
        trimmed_start(s) == s.skip(s.len() - trimmed_start(s).len()),
        trimmed_start(s).len() > 0 ==> !white_space(trimmed_start(s)[0]),
    decreases s.len(),
{
    if s.len() > 0 && white_space(s[0]) {
        trimmed_start_properties(s.drop_first());
    } else {
        assert(s.skip(0) == s);
    }
}

proof fn trimmed_end_properties(s: Seq<char>)
    ensures
        trimmed_end(s).len() <= s.len(),
        trimmed_end(s) == s.take(trimmed_end(s).len() as int),
        trimmed_end(s).len() > 0 ==> !white_space(trimmed_end(s).last()),
    decreases s.len(),
{
    if s.len() > 0 && white_space(s.last()) {
        trimmed_end_properties(s.drop_last());
    } else {
        assert(s.take(s.len() as int) == s);
    }
}

/// Trimming leaves a part of the text that neither begins nor ends with white space, and leaves
/// such a text as it is.
pub proof fn trimming_removes_the_white_space_around(s: Seq<char>)
    ensures
        is_trimmed(trimmed(s)),
        exists|i: int, j: int|
            0 <= i <= j <= s.len() && trimmed(s) == #[trigger] s.subrange(i, j),
        is_trimmed(s) ==> trimmed(s) == s,
{
    let a = trimmed_start(s);
    let b = trimmed(s);
    trimmed_start_properties(s);
    trimmed_end_properties(a);
    let i = s.len() - a.len();
    assert(b == s.subrange(i, i + b.len()));
    if b.len() > 0 {
        assert(b[0] == a[0]);
    }
}

/// What follows the last separator holds none, and is the end of the text.
pub proof fn tail_holds_no_separator(s: Seq<char>, sep: char)
    ensures
        !after_last(s, sep).contains(sep),
        after_last(s, sep).len() <= s.len(),
        after_last(s, sep) == s.skip(s.len() - after_last(s, sep).len()),
        after_last(s, sep).len() < s.len() ==> s[s.len() - after_last(s, sep).len() - 1] == sep,
    decreases s.len(),
{
    if s.len() > 0 && s.last() != sep {
        let t = s.drop_last();
        let tail = after_last(t, sep);
        tail_holds_no_separator(t, sep);
        let longer = tail.push(s.last());
        if longer.contains(sep) {
            let k = choose|k: int| 0 <= k < longer.len() && longer[k] == sep;
            assert(tail[k] == sep);
        }
    }
}

/// A number that is written in decimal is read back as itself.
pub proof fn decimals_are_read_back(n: nat)
    ensures
        decimal(n).len() > 0,
        forall|i: int| 0 <= i < decimal(n).len() ==> is_digit(#[trigger] decimal(n)[i]),
        value_of(decimal(n)) == n,
        n <= u16::MAX ==> u16_of(decimal(n)) == Some(n as u16),
    decreases n,
{
    if n < 10 {
        assert(decimal(n).drop_last() == Seq::<char>::empty());
        assert(value_of(Seq::<char>::empty()) == 0);
    } else {
        decimals_are_read_back(n / 10);
        assert(decimal(n).drop_last() == decimal(n / 10));
    }
    assert(is_digit(decimal(n)[0]));
    assert(unsigned_part(decimal(n)) == decimal(n));
}

/// Trimming cuts off white space and nothing else, and all of it.
pub proof fn only_white_space_is_trimmed(s: Seq<char>)
    ensures
        exists|i: int, j: int|
            0 <= i <= j <= s.len() && trimmed(s) == #[trigger] s.subrange(i, j) && (forall|k: int|
                0 <= k < i ==> white_space(#[trigger] s[k])) && (forall|k: int|
                j <= k < s.len() ==> white_space(#[trigger] s[k])),
        trimmed(s).len() == 0 <==> forall|k: int| 0 <= k < s.len() ==> white_space(#[trigger] s[k]),
{
    let a = trimmed_start(s);
    let b = trimmed(s);
    trimmed_start_properties(s);
    trimmed_end_properties(a);
    leading_white_space_is_cut(s);
    trailing_white_space_is_cut(a);
    let i = s.len() - a.len();
    let j = i + b.len();
    assert(b == s.subrange(i, j));
    assert forall|k: int| j <= k < s.len() implies white_space(#[trigger] s[k]) by {
        assert(s[k] == a[k - i]);
    }
    if b.len() > 0 {
        assert(b[0] == a[0]);
        assert(b[0] == s[i]);
    }
}

proof fn leading_white_space_is_cut(s: Seq<char>)
    ensures
        trimmed_start(s).len() <= s.len(),
        forall|k: int|
            0 <= k < s.len() - trimmed_start(s).len() ==> white_space(#[trigger] s[k]),
    decreases s.len(),
{
    if s.len() > 0 && white_space(s[0]) {
        let t = s.drop_first();
        leading_white_space_is_cut(t);
        assert forall|k: int| 0 <= k < s.len() - trimmed_start(s).len() implies white_space(
            #[trigger] s[k],
        ) by {
            if k > 0 {
                assert(s[k] == t[k - 1]);
            }
        }
    }
}

proof fn trailing_white_space_is_cut(s: Seq<char>)
    ensures
        trimmed_end(s).len() <= s.len(),
        forall|k: int| trimmed_end(s).len() <= k < s.len() ==> white_space(#[trigger] s[k]),
    decreases s.len(),
{
    if s.len() > 0 && white_space(s.last()) {
        let t = s.drop_last();
        trailing_white_space_is_cut(t);
        assert forall|k: int| trimmed_end(s).len() <= k < s.len() implies white_space(
            #[trigger] s[k],
        ) by {
            if k < t.len() {
                assert(s[k] == t[k]);
            }
        }
    }
}

/// White space is what Unicode says it is: tab, line feed, vertical tab, form feed, carriage
/// return, space, next line, no-break space, the Ogham space, the spaces of general punctuation,
/// the line and the paragraph separator, and the ideographic space.
pub proof fn white_space_is_that_of_unicode(c: char)
    ensures
        white_space(c) <==> c == '\t' || c == '\n' || c == '\u{b}' || c == '\u{c}' || c == '\r' || c
            == ' ' || c == '\u{85}' || c == '\u{a0}' || c == '\u{1680}' || '\u{2000}' <= c
            <= '\u{200a}' || c == '\u{2028}' || c == '\u{2029}' || c == '\u{202f}' || c
            == '\u{205f}' || c == '\u{3000}',
{
}

/// Two texts are the same but for case where at each place they have the same character, or the
/// upper and the lower case of one ASCII letter.
pub proof fn texts_match_in_either_case(a: Seq<char>, b: Seq<char>)
    ensures
        same_ignoring_case(a, b) <==> a.len() == b.len() && forall|i: int|
            0 <= i < a.len() ==> (#[trigger] a[i] == b[i] || ('A' <= a[i] <= 'Z' && b[i] as u32
                == a[i] as u32 + 32) || ('A' <= b[i] <= 'Z' && a[i] as u32 == b[i] as u32 + 32)),
{
    assert forall|i: int| 0 <= i < a.len() && a.len() == b.len() implies ((ascii_lower(
        #[trigger] a[i],
    ) == ascii_lower(b[i])) == (a[i] == b[i] || ('A' <= a[i] <= 'Z' && b[i] as u32 == a[i] as u32
        + 32) || ('A' <= b[i] <= 'Z' && a[i] as u32 == b[i] as u32 + 32))) by {}
}

/// So many zeros.
pub open spec fn zeros(count: nat) -> Seq<char> {
    Seq::new(count, |i: int| '0')
}

/// A way to write a number: in decimal, after some zeros, and after a plus sign if there is one.
pub open spec fn numeral(plus: bool, leading: nat, n: nat) -> Seq<char> {
    (if plus {
        seq!['+']
    } else {
        Seq::empty()
    }) + zeros(leading) + decimal(n)
}

/// Each further digit of a number counts ten times less than the ones before it.
pub proof fn digits_are_written_one_by_one(n: nat, d: nat)
    requires
        d < 10,
    ensures
        decimal(d) == seq![('0' as u32 + d) as char],
        n > 0 ==> decimal(10 * n + d) == decimal(n).push(('0' as u32 + d) as char),
        n > 0 ==> decimal(n)[0] != '0',
    decreases n,
{
    if n > 0 {
        assert((10 * n + d) / 10 == n && (10 * n + d) % 10 == d);
        if n >= 10 {
            digits_are_written_one_by_one(n / 10, n % 10);
            decimals_are_read_back(n / 10);
        }
    }
}

proof fn zeros_count_nothing(count: nat, s: Seq<char>)
    ensures
        value_of(zeros(count) + s) == value_of(s),
    decreases count + s.len(),
{
    if s.len() > 0 {
        assert((zeros(count) + s).drop_last() == zeros(count) + s.drop_last());
        zeros_count_nothing(count, s.drop_last());
    } else if count > 0 {
        assert(zeros(count) + s == zeros(count));
        assert(zeros(count).drop_last() == zeros((count - 1) as nat));
        assert(zeros((count - 1) as nat) + s == zeros((count - 1) as nat));
        zeros_count_nothing((count - 1) as nat, s);
    } else {
        assert(zeros(0) + s == s);
    }
}

proof fn digits_are_zeros_and_a_decimal(s: Seq<char>)
    requires
        s.len() > 0,
        forall|i: int| 0 <= i < s.len() ==> is_digit(#[trigger] s[i]),
    ensures
        decimal(value_of(s)).len() <= s.len(),
        s == zeros((s.len() - decimal(value_of(s)).len()) as nat) + decimal(value_of(s)),
    decreases s.len(),
{
    let t = s.drop_last();
    let d = (s.last() as u32 - '0' as u32) as nat;
    assert(is_digit(s[s.len() - 1]));
    assert(digit(d as int) == s.last());
    if t.len() == 0 {
        assert(value_of(t) == 0);
        assert(s == zeros(0) + decimal(value_of(s)));
    } else {
        assert forall|i: int| 0 <= i < t.len() implies is_digit(#[trigger] t[i]) by {
            assert(t[i] == s[i]);
        }
        digits_are_zeros_and_a_decimal(t);
        let v = value_of(t);
        digits_are_written_one_by_one(v, d);
        let z = (t.len() - decimal(v).len()) as nat;
        assert(s == t.push(s.last()));
        if v == 0 {
            assert(t == zeros(z + 1));
            assert(s == zeros(z + 1) + decimal(d));
        } else {
            assert(s == zeros(z) + decimal(10 * v + d));
        }
    }
}

/// Exactly the numbers up to the greatest one of 16 bits are read, each from its decimal digits,
/// with any number of zeros and at most one plus sign before them.
pub proof fn numbers_are_read_from_their_digits(s: Seq<char>, n: u16)
    ensures
        u16_of(s) == Some(n) <==> exists|plus: bool, leading: nat| s == #[trigger]
            numeral(plus, leading, n as nat),
{
    if u16_of(s) == Some(n) {
        let digits = unsigned_part(s);
        digits_are_zeros_and_a_decimal(digits);
        let leading = (digits.len() - decimal(n as nat).len()) as nat;
        let plus = s.len() > 0 && s[0] == '+';
        if plus {
            assert(s == seq!['+'] + digits);
        } else {
            assert(s == Seq::<char>::empty() + digits);
        }
        assert(s == numeral(plus, leading, n as nat));
    }
    if exists|plus: bool, leading: nat| s == #[trigger] numeral(plus, leading, n as nat) {
        let (plus, leading): (bool, nat) = choose|plus: bool, leading: nat| s == #[trigger]
            numeral(plus, leading, n as nat);
        let digits = zeros(leading) + decimal(n as nat);
        decimals_are_read_back(n as nat);
        zeros_count_nothing(leading, decimal(n as nat));
        assert forall|i: int| 0 <= i < digits.len() implies is_digit(#[trigger] digits[i]) by {
            if i >= leading {
                assert(digits[i] == decimal(n as nat)[i - leading]);
            }
        }
        assert(is_digit(digits[0]));
        assert(unsigned_part(s) == digits);
    }
}

/// The tail of a text that ends with a separator and some characters that are none is these
/// characters; of a text without a separator it is all of it.
pub proof fn tails_follow_the_last_separator(a: Seq<char>, b: Seq<char>, sep: char)
    requires
        !b.contains(sep),
    ensures
        after_last(a.push(sep) + b, sep) == b,
        after_last(b, sep) == b,
{
    let s = a.push(sep) + b;
    let t = after_last(s, sep);
    tail_holds_no_separator(s, sep);
    if t.len() > b.len() {
        let k = t.len() - b.len() - 1;
        assert(t[k] == s[a.len() as int]);
        assert(t.contains(sep));
    }
    if t.len() < b.len() {
        let k = b.len() - t.len() - 1;
        assert(b[k] == s[s.len() - t.len() - 1]);
        assert(b.contains(sep));
    }
    assert(t == b);
    let u = after_last(b, sep);
    tail_holds_no_separator(b, sep);
    if u.len() < b.len() {
        assert(b.contains(b[b.len() - u.len() - 1]));
    }
    assert(u == b);
}

/// A list of strings stands for as many texts, and each string for its own.
pub proof fn strings_stand_for_their_texts(v: Seq<String>)
    ensures
        texts(v).len() == v.len(),
        forall|i: int| 0 <= i < v.len() ==> #[trigger] texts(v)[i] == v[i]@,
{
}

} // verus!
