//! Text helpers shared by the cloud backends, the history and the usage report.
use vstd::prelude::*;
use vstd::utf8::*;

verus! {

/// Whether `c` has the Unicode `White_Space` property.
pub open spec fn is_space(c: char) -> bool {
    let u = c as u32;
    ||| 0x9 <= u <= 0xd
    ||| u == 0x20
    ||| u == 0x85
    ||| u == 0xa0
    ||| u == 0x1680
    ||| 0x2000 <= u <= 0x200a
    ||| u == 0x2028
    ||| u == 0x2029
    ||| u == 0x202f
    ||| u == 0x205f
    ||| u == 0x3000
}

/// `s` without the white space at its start.
pub open spec fn trimmed_start(s: Seq<char>) -> Seq<char>
    decreases s.len(),
{
    if s.len() > 0 && is_space(s[0]) {
        trimmed_start(s.drop_first())
    } else {
        s
    }
}

/// `s` without the white space at its end.
pub open spec fn trimmed_end(s: Seq<char>) -> Seq<char>
    decreases s.len(),
{
    if s.len() > 0 && is_space(s.last()) {
        trimmed_end(s.drop_last())
    } else {
        s
    }
}

/// `s` without the white space around it.
pub open spec fn trimmed(s: Seq<char>) -> Seq<char> {
    trimmed_end(trimmed_start(s))
}

/// Whether `c` is white space.
pub fn char_is_space(c: char) -> (r: bool)
    ensures
        r == is_space(c),
{
    let u: u32 = c as u32;
    (0x9 <= u && u <= 0xd) || u == 0x20 || u == 0x85 || u == 0xa0 || u == 0x1680 || (0x2000 <= u
        && u <= 0x200a) || u == 0x2028 || u == 0x2029 || u == 0x202f || u == 0x205f || u == 0x3000
}

proof fn lemma_trimmed_start_at(s: Seq<char>, n: int)
    requires
        0 <= n <= s.len(),
        forall|i: int| 0 <= i < n ==> is_space(#[trigger] s[i]),
        n < s.len() ==> !is_space(s[n]),
    ensures
        trimmed_start(s) == s.skip(n),
    decreases s.len(),
{
    if n == 0 {
        assert(s.skip(0) =~= s);
    } else {
        let rest = s.drop_first();
        assert forall|i: int| 0 <= i < n - 1 implies is_space(#[trigger] rest[i]) by {
            assert(rest[i] == s[i + 1]);
        }
        lemma_trimmed_start_at(rest, n - 1);
        assert(rest.skip(n - 1) =~= s.skip(n));
        assert(is_space(s[0]));
    }
}

proof fn lemma_trimmed_end_at(s: Seq<char>, n: int)
    requires
        0 <= n <= s.len(),
        forall|i: int| n <= i < s.len() ==> is_space(#[trigger] s[i]),
        n > 0 ==> !is_space(s[n - 1]),
    ensures
        trimmed_end(s) == s.take(n),
    decreases s.len(),
{
    if n == s.len() {
        assert(s.take(n) =~= s);
    } else {
        let rest = s.drop_last();
        assert(is_space(s[s.len() - 1]));
        lemma_trimmed_end_at(rest, n);
        assert(rest.take(n) =~= s.take(n));
    }
}

/// The characters of `s`.
pub fn chars_of(s: &str) -> (r: Vec<char>)
    ensures
        r@ == s@,
{
    let mut out: Vec<char> = Vec::new();
    for c in it: s.chars()
        invariant
            it.seq() == s@,
            out@ == s@.take(it.index() as int),
    {
        out.push(c);
        assert(s@.take(it.index() as int + 1) =~= s@.take(it.index() as int).push(c));
    }
    assert(s@.take(s@.len() as int) =~= s@);
    out
}

/// `s` without the white space around it.
pub fn trim(s: &str) -> (r: String)
    ensures
        r@ == trimmed(s@),
{
    let chars = chars_of(s);
    let n: usize = chars.len();
    let mut start: usize = 0;
    while start < n && char_is_space(chars[start])
        invariant
            n == s@.len(),
            chars@ == s@,
            start <= n,
            forall|i: int| 0 <= i < start ==> is_space(#[trigger] s@[i]),
        decreases n - start,
    {
        start += 1;
    }
    proof {
        lemma_trimmed_start_at(s@, start as int);
    }
    let ghost rest = s@.skip(start as int);
    let mut end: usize = n;
    while end > start && char_is_space(chars[end - 1])
        invariant
            n == s@.len(),
            chars@ == s@,
            start <= end <= n,
            forall|i: int| end <= i < n ==> is_space(#[trigger] s@[i]),
        decreases end,
    {
        end -= 1;
    }
    proof {
        assert forall|i: int| end - start <= i < rest.len() implies is_space(#[trigger] rest[i]) by {
            assert(rest[i] == s@[i + start]);
        }
        lemma_trimmed_end_at(rest, end - start);
        assert(rest.take(end - start) =~= s@.subrange(start as int, end as int));
    }
    s.substring_char(start, end).to_owned()
}

/// Whether `a` and `b` are the same text.
pub fn same_text(a: &str, b: &str) -> (r: bool)
    ensures
        r == (a@ == b@),
{
    a.to_owned() == b.to_owned()
}

/// Number of bytes that `s` takes in UTF-8.
pub open spec fn byte_len(s: Seq<char>) -> nat {
    encode_utf8(s).len()
}

/// Number of bytes that `c` takes in UTF-8.
pub open spec fn char_width(c: char) -> int {
    let u = c as u32;
    if u < 0x80 {
        1
    } else if u < 0x800 {
        2
    } else if u < 0x10000 {
        3
    } else {
        4
    }
}

proof fn lemma_encoding_of_concatenation(a: Seq<char>, b: Seq<char>)
    ensures
        encode_utf8(a + b) == encode_utf8(a) + encode_utf8(b),
    decreases a.len(),
{
    if a.len() == 0 {
        assert(a + b =~= b);
        assert(encode_utf8(a) + encode_utf8(b) =~= encode_utf8(b));
    } else {
        lemma_encoding_of_concatenation(a.drop_first(), b);
        assert((a + b).drop_first() =~= a.drop_first() + b);
        assert((a + b)[0] == a[0]);
        assert(encode_utf8(a + b) =~= encode_utf8(a) + encode_utf8(b));
    }
}

proof fn lemma_byte_len_of_next_prefix(s: Seq<char>, k: int)
    requires
        0 <= k < s.len(),
    ensures
        byte_len(s.take(k + 1)) == byte_len(s.take(k)) + char_width(s[k]),
{
    let one = seq![s[k]];
    assert(s.take(k + 1) =~= s.take(k) + one);
    lemma_encoding_of_concatenation(s.take(k), one);
    assert(one.drop_first() =~= Seq::<char>::empty());
    reveal_with_fuel(encode_utf8, 2);
    char_is_scalar(s[k]);
}

/// A longer prefix takes at least as many bytes.
proof fn lemma_byte_len_grows(s: Seq<char>, j: int, k: int)
    requires
        0 <= j <= k <= s.len(),
    ensures
        byte_len(s.take(j)) <= byte_len(s.take(k)),
    decreases k - j,
{
    if j < k {
        lemma_byte_len_grows(s, j, k - 1);
        lemma_byte_len_of_next_prefix(s, k - 1);
    }
}

/// Number of bytes that `c` takes in UTF-8.
fn width_of(c: char) -> (r: usize)
    ensures
        r == char_width(c),
        1 <= r <= 4,
{
    let u: u32 = c as u32;
    if u < 0x80 {
        1
    } else if u < 0x800 {
        2
    } else if u < 0x10000 {
        3
    } else {
        4
    }
}

/// Number of characters in the longest prefix of `s` that takes at most `limit` bytes.
pub open spec fn chars_within(s: Seq<char>, limit: int) -> int
    decreases s.len(),
{
    if byte_len(s) <= limit || s.len() == 0 {
        s.len() as int
    } else {
        chars_within(s.drop_last(), limit)
    }
}

/// `s` itself when it takes at most `limit` bytes; otherwise the longest prefix that does,
/// with an ellipsis after it.
pub open spec fn shortened(s: Seq<char>, limit: int) -> Seq<char> {
    if byte_len(s) <= limit {
        s
    } else {
        s.take(chars_within(s, limit)) + "…"@
    }
}

proof fn lemma_chars_within_at(s: Seq<char>, limit: int, k: int)
    requires
        0 <= k <= s.len(),
        byte_len(s.take(k)) <= limit,
        k < s.len() ==> byte_len(s.take(k + 1)) > limit,
    ensures
        chars_within(s, limit) == k,
    decreases s.len(),
{
    if k == s.len() {
        assert(s.take(k) =~= s);
    } else {
        lemma_byte_len_grows(s, k + 1, s.len() as int);
        assert(s.take(s.len() as int) =~= s);
        let rest = s.drop_last();
        assert(rest.take(k) =~= s.take(k));
        if k < rest.len() {
            assert(rest.take(k + 1) =~= s.take(k + 1));
        }
        lemma_chars_within_at(rest, limit, k);
    }
}

/// Cuts `body` down to at most `limit` bytes, never inside a character, and marks the cut with
/// an ellipsis. Text that fits is returned as it is.
pub fn shorten(body: &str, limit: usize) -> (r: String)
    ensures
        r@ == shortened(body@, limit as int),
{
    if body.as_bytes().len() <= limit {
        return body.to_owned();
    }
    let chars = chars_of(body);
    let n: usize = chars.len();
    let mut k: usize = 0;
    let mut used: usize = 0;
    proof {
        assert(body@.take(0) =~= Seq::<char>::empty());
    }
    while k < n && width_of(chars[k]) <= limit - used
        invariant
            chars@ == body@,
            n == body@.len(),
            k <= n,
            used <= limit,
            used == byte_len(body@.take(k as int)),
        ensures
            k < n ==> used + char_width(body@[k as int]) > limit,
        decreases n - k,
    {
        proof {
            lemma_byte_len_of_next_prefix(body@, k as int);
        }
        used += width_of(chars[k]);
        k += 1;
    }
    proof {
        if k < n {
            lemma_byte_len_of_next_prefix(body@, k as int);
        }
        lemma_chars_within_at(body@, limit as int, k as int);
        assert(body@.subrange(0, k as int) =~= body@.take(k as int));
    }
    let mut out = body.substring_char(0, k).to_owned();
    out.append("…");
    out
}

/// The parts with `sep` between neighbours.
pub open spec fn joined(parts: Seq<Seq<char>>, sep: Seq<char>) -> Seq<char>
    decreases parts.len(),
{
    if parts.len() == 0 {
        Seq::empty()
    } else if parts.len() == 1 {
        parts[0]
    } else {
        joined(parts.drop_last(), sep) + sep + parts.last()
    }
}

/// The texts of a list of strings.
pub open spec fn texts(v: Seq<String>) -> Seq<Seq<char>> {
    v.map_values(|s: String| s@)
}

/// Joins `parts`, with `sep` between neighbours.
pub fn join(parts: &Vec<String>, sep: &str) -> (r: String)
    ensures
        r@ == joined(texts(parts@), sep@),
{
    let mut out = String::new();
    let mut i: usize = 0;
    let ghost all = texts(parts@);
    while i < parts.len()
        invariant
            all == texts(parts@),
            i <= parts.len(),
            out@ == joined(all.take(i as int), sep@),
        decreases parts.len() - i,
    {
        if i > 0 {
            out.append(sep);
        }
        out.append(parts[i].as_str());
        proof {
            let next = all.take(i + 1);
            assert(next.drop_last() =~= all.take(i as int));
            assert(next.last() == parts@[i as int]@);
        }
        i += 1;
    }
    proof {
        assert(all.take(parts@.len() as int) =~= all);
    }
    out
}

/// The two texts, one after the other.
pub fn concat(a: &str, b: &str) -> (r: String)
    ensures
        r@ == a@ + b@,
{
    let mut out = a.to_owned();
    out.append(b);
    out
}

/// A copy of the list.
pub fn copy_texts(list: &[String]) -> (r: Vec<String>)
    ensures
        r@ == list@,
{
    let mut out: Vec<String> = Vec::new();
    let mut i: usize = 0;
    while i < list.len()
        invariant
            i <= list.len(),
            out@ == list@.take(i as int),
        decreases list.len() - i,
    {
        out.push(list[i].clone());
        proof {
            assert(list@.take(i + 1) =~= list@.take(i as int).push(list@[i as int]));
        }
        i += 1;
    }
    proof {
        assert(list@.take(list@.len() as int) =~= list@);
    }
    out
}

/// The decimal digit for a number below ten.
pub open spec fn digit(n: int) -> char {
    ('0' as int + n) as char
}

/// The decimal digits of a number.
pub open spec fn digits(n: nat) -> Seq<char>
    decreases n,
{
    if n < 10 {
        seq![digit(n as int)]
    } else {
        digits(n / 10).push(digit((n % 10) as int))
    }
}

/// A number in decimal, with a minus sign before it where it is negative.
pub open spec fn decimal(n: int) -> Seq<char> {
    if n < 0 {
        "-"@ + digits((-n) as nat)
    } else {
        digits(n as nat)
    }
}

/// The decimal digit for a number below ten, as a text.
fn digit_text(n: u64) -> (r: &'static str)
    requires
        n < 10,
    ensures
        r@ == seq![digit(n as int)],
{
    proof {
        reveal_strlit("0");
        reveal_strlit("1");
        reveal_strlit("2");
        reveal_strlit("3");
        reveal_strlit("4");
        reveal_strlit("5");
        reveal_strlit("6");
        reveal_strlit("7");
        reveal_strlit("8");
        reveal_strlit("9");
    }
    if n == 0 {
        "0"
    } else if n == 1 {
        "1"
    } else if n == 2 {
        "2"
    } else if n == 3 {
        "3"
    } else if n == 4 {
        "4"
    } else if n == 5 {
        "5"
    } else if n == 6 {
        "6"
    } else if n == 7 {
        "7"
    } else if n == 8 {
        "8"
    } else {
        "9"
    }
}

/// The decimal digits of a number.
fn digits_text(n: u64) -> (r: String)
    ensures
        r@ == digits(n as nat),
    decreases n,
{
    if n < 10 {
        digit_text(n).to_owned()
    } else {
        let mut out = digits_text(n / 10);
        let ghost head = out@;
        out.append(digit_text(n % 10));
        proof {
            assert(out@ =~= head.push(digit((n % 10) as int)));
        }
        out
    }
}

/// A number in decimal.
pub fn decimal_text(n: i64) -> (r: String)
    ensures
        r@ == decimal(n as int),
{
    if n < 0 {
        let size: u64 = (-(n as i128)) as u64;
        concat("-", digits_text(size).as_str())
    } else {
        digits_text(n as u64)
    }
}

/// Whether `c` is a decimal digit.
pub open spec fn is_digit(c: char) -> bool {
    '0' as int <= c as int <= '9' as int
}

/// The number that a run of decimal digits writes; none for anything else.
pub open spec fn digits_value(s: Seq<char>) -> Option<int>
    decreases s.len(),
{
    if s.len() == 0 {
        Some(0)
    } else {
        match digits_value(s.drop_last()) {
            Some(v) if is_digit(s.last()) => Some(v * 10 + (s.last() as int - '0' as int)),
            _ => None,
        }
    }
}

/// The integer that a text writes: digits, with a sign before them or not, within the range of
/// `i64`. None for anything else.
pub open spec fn parsed_i64(s: Seq<char>) -> Option<int> {
    let signed = s.len() > 0 && (s[0] == '-' || s[0] == '+');
    let body = if signed {
        s.drop_first()
    } else {
        s
    };
    match digits_value(body) {
        Some(v) if body.len() > 0 => {
            let n = if signed && s[0] == '-' {
                -v
            } else {
                v
            };
            if i64::MIN <= n <= i64::MAX {
                Some(n)
            } else {
                None
            }
        },
        _ => None,
    }
}

/// More digits never make a smaller number.
proof fn lemma_more_digits(s: Seq<char>, k: int)
    requires
        0 <= k <= s.len(),
    ensures
        digits_value(s) matches Some(v) ==> {
            &&& digits_value(s.take(k)) matches Some(u)
            &&& 0 <= u <= v
        },
    decreases s.len(),
{
    if k == s.len() {
        assert(s.take(k) =~= s);
        if s.len() > 0 && digits_value(s) is Some {
            lemma_more_digits(s.drop_last(), s.len() - 1);
            assert(s.drop_last().take(s.len() - 1) =~= s.drop_last());
        }
    } else {
        lemma_more_digits(s.drop_last(), k);
        assert(s.drop_last().take(k) =~= s.take(k));
    }
}

/// The integer that a text writes, within the range of `i64`.
pub fn parse_i64(s: &str) -> (r: Option<i64>)
    ensures
        match r {
            Some(n) => parsed_i64(s@) == Some(n as int),
            None => parsed_i64(s@) is None,
        },
{
    let chars = chars_of(s);
    let n: usize = chars.len();
    let signed = n > 0 && (chars[0] == '-' || chars[0] == '+');
    let start: usize = if signed {
        1
    } else {
        0
    };
    let ghost body = if signed {
        s@.drop_first()
    } else {
        s@
    };
    if start == n {
        return None;
    }
    let mut value: i128 = 0;
    let mut i: usize = start;
    proof {
        assert(body.take(0) =~= Seq::empty());
    }
    while i < n
        invariant
            n == s@.len(),
            chars@ == s@,
            start <= i <= n,
            signed == (n > 0 && (s@[0] == '-' || s@[0] == '+')),
            start == if signed {
                1int
            } else {
                0int
            },
            body == if signed {
                s@.drop_first()
            } else {
                s@
            },
            start < n,
            body.len() == n - start,
            0 <= value <= 0x8000_0000_0000_0000,
            digits_value(body.take(i - start)) == Some(value as int),
        decreases n - i,
    {
        let c: char = chars[i];
        proof {
            let shown = body.take(i - start + 1);
            assert(shown.last() == c);
            assert(shown.drop_last() =~= body.take(i - start));
            lemma_more_digits(body, i - start + 1);
        }
        if c < '0' || c > '9' {
            return None;
        }
        value = value * 10 + (c as u32 - '0' as u32) as i128;
        if value > 0x8000_0000_0000_0000 {
            return None;
        }
        i += 1;
    }
    proof {
        assert(body.take(body.len() as int) =~= body);
    }
    if signed && chars[0] == '-' {
        Some((-value) as i64)
    } else if value <= i64::MAX as i128 {
        Some(value as i64)
    } else {
        None
    }
}

proof fn lemma_chars_within_fit(s: Seq<char>, limit: int)
    requires
        0 <= limit,
    ensures
        0 <= chars_within(s, limit) <= s.len(),
        byte_len(s.take(chars_within(s, limit))) <= limit,
    decreases s.len(),
{
    if byte_len(s) <= limit || s.len() == 0 {
        assert(s.take(s.len() as int) =~= s);
    } else {
        lemma_chars_within_fit(s.drop_last(), limit);
        let k = chars_within(s, limit);
        assert(s.drop_last().take(k) =~= s.take(k));
    }
}

/// A shortened text is never longer than the limit and an ellipsis, and says nothing that the text
/// does not say: it is the text itself or a prefix of it before the ellipsis.
pub proof fn law_shortened_text_is_bounded(s: Seq<char>, limit: int)
    requires
        0 <= limit,
    ensures
        byte_len(shortened(s, limit)) <= limit + 3,
        shortened(s, limit) == s || exists|k: int|
            0 <= k < s.len() && shortened(s, limit) == #[trigger] s.take(k) + "…"@,
{
    lemma_chars_within_fit(s, limit);
    let k = chars_within(s, limit);
    if byte_len(s) > limit {
        reveal_strlit("…");
        let mark = "…"@;
        assert(mark =~= seq!['…']);
        lemma_encoding_of_concatenation(s.take(k), mark);
        lemma_byte_len_of_next_prefix(mark, 0);
        assert(mark.take(1) =~= mark);
        assert(mark.take(0) =~= Seq::<char>::empty());
        assert(shortened(s, limit) == s.take(k) + mark);
        if k == s.len() {
            assert(s.take(k) =~= s);
        }
    }
}

proof fn lemma_digits_read_back(n: nat)
    ensures
        digits(n).len() > 0,
        is_digit(digits(n)[0]),
        digits_value(digits(n)) == Some(n as int),
    decreases n,
{
    if n < 10 {
        assert(digits(n).drop_last() =~= Seq::<char>::empty());
        assert(digits_value(Seq::<char>::empty()) == Some(0int));
    } else {
        lemma_digits_read_back(n / 10);
        let head = digits(n / 10);
        assert(digits(n).drop_last() =~= head);
        assert(digits(n)[0] == head[0]);
    }
}

/// A number in decimal reads back as that number.
pub proof fn law_decimal_reads_back(n: i64)
    ensures
        parsed_i64(decimal(n as int)) == Some(n as int),
{
    if n < 0 {
        reveal_strlit("-");
        lemma_digits_read_back((-(n as int)) as nat);
        let s = decimal(n as int);
        assert(s[0] == '-');
        assert(s.drop_first() =~= digits((-(n as int)) as nat));
    } else {
        lemma_digits_read_back(n as nat);
    }
}

/// White space is the tab and the four that follow it, the space, and the other separators and
/// line breaks of Unicode.
pub proof fn law_what_white_space_is(c: char)
    ensures
        is_space(c) <==> {
            ||| 9 <= c as int <= 13
            ||| 8192 <= c as int <= 8202
            ||| seq![32int, 133, 160, 5760, 8232, 8233, 8239, 8287, 12288].contains(c as int)
        },
{
    let others = seq![32int, 133, 160, 5760, 8232, 8233, 8239, 8287, 12288];
    if others.contains(c as int) {
        let i = choose|i: int| 0 <= i < others.len() && others[i] == c as int;
        assert(0 <= i < 9);
    }
    assert(others[0] == 32 && others[1] == 133 && others[2] == 160 && others[3] == 5760 && others[4]
        == 8232 && others[5] == 8233 && others[6] == 8239 && others[7] == 8287 && others[8]
        == 12288);
}

proof fn lemma_trimmed_start_is_a_suffix(s: Seq<char>) -> (start: int)
    ensures
        0 <= start <= s.len(),
        trimmed_start(s) == s.skip(start),
        forall|i: int| 0 <= i < start ==> is_space(#[trigger] s[i]),
        start < s.len() ==> !is_space(s[start]),
    decreases s.len(),
{
    if s.len() > 0 && is_space(s[0]) {
        let rest = s.drop_first();
        let start = lemma_trimmed_start_is_a_suffix(rest);
        assert(rest.skip(start) =~= s.skip(start + 1));
        assert forall|i: int| 0 <= i < start + 1 implies is_space(#[trigger] s[i]) by {
            if i > 0 {
                assert(rest[i - 1] == s[i]);
            }
        }
        start + 1
    } else {
        assert(s.skip(0) =~= s);
        0
    }
}

proof fn lemma_trimmed_end_is_a_prefix(s: Seq<char>) -> (end: int)
    ensures
        0 <= end <= s.len(),
        trimmed_end(s) == s.take(end),
        forall|i: int| end <= i < s.len() ==> is_space(#[trigger] s[i]),
        end > 0 ==> !is_space(s[end - 1]),
    decreases s.len(),
{
    if s.len() > 0 && is_space(s.last()) {
        let rest = s.drop_last();
        let end = lemma_trimmed_end_is_a_prefix(rest);
        assert(rest.take(end) =~= s.take(end));
        assert forall|i: int| end <= i < s.len() implies is_space(#[trigger] s[i]) by {
            if i < rest.len() {
                assert(rest[i] == s[i]);
            }
        }
        end
    } else {
        assert(s.take(s.len() as int) =~= s);
        s.len() as int
    }
}

/// Whether everything outside `start..end` is white space, and nothing at its edges is.
pub open spec fn surrounded(s: Seq<char>, start: int, end: int) -> bool {
    &&& 0 <= start <= end <= s.len()
    &&& forall|i: int| 0 <= i < start ==> is_space(#[trigger] s[i])
    &&& forall|i: int| end <= i < s.len() ==> is_space(#[trigger] s[i])
    &&& start < end ==> !is_space(s[start]) && !is_space(s[end - 1])
}

/// Trimming takes the white space at both ends, all of it, and nothing else. What is left is blank
/// only where all of it was.
pub proof fn law_trimming_takes_the_white_space_around(s: Seq<char>)
    ensures
        exists|start: int, end: int| #[trigger]
            surrounded(s, start, end) && trimmed(s) == s.subrange(start, end),
        trimmed(s).len() == 0 <==> forall|i: int| 0 <= i < s.len() ==> is_space(#[trigger] s[i]),
{
    let start = lemma_trimmed_start_is_a_suffix(s);
    let rest = s.skip(start);
    let length = lemma_trimmed_end_is_a_prefix(rest);
    let end = start + length;
    assert(rest.take(length) =~= s.subrange(start, end));
    assert forall|i: int| end <= i < s.len() implies is_space(#[trigger] s[i]) by {
        assert(rest[i - start] == s[i]);
    }
    if start < end {
        assert(rest[0] == s[start]);
        assert(rest[length - 1] == s[end - 1]);
        assert(!is_space(s[start]));
    } else {
        assert forall|i: int| 0 <= i < s.len() implies is_space(#[trigger] s[i]) by {
            if i >= start {
                assert(end <= i);
            }
        }
    }
    assert(surrounded(s, start, end));
}

/// A joined list reads as its two parts with the separator between them; a list of one reads as
/// that one, and an empty one as nothing.
pub proof fn law_joining_puts_the_separator_between(
    before: Seq<Seq<char>>,
    after: Seq<Seq<char>>,
    one: Seq<char>,
    sep: Seq<char>,
)
    ensures
        joined(Seq::<Seq<char>>::empty(), sep) == Seq::<char>::empty(),
        joined(seq![one], sep) == one,
        before.len() > 0 && after.len() > 0 ==> joined(before + after, sep) == joined(before, sep)
            + sep + joined(after, sep),
    decreases after.len(),
{
    if before.len() > 0 && after.len() > 0 {
        let all = before + after;
        assert(all.last() == after.last());
        if after.len() == 1 {
            assert(all.drop_last() =~= before);
            assert(after[0] == after.last());
        } else {
            let less = after.drop_last();
            law_joining_puts_the_separator_between(before, less, one, sep);
            assert(all.drop_last() =~= before + less);
            assert(joined(before, sep) + sep + joined(less, sep) + sep + after.last()
                =~= joined(before, sep) + sep + (joined(less, sep) + sep + after.last()));
        }
    }
}

/// A text within the limit is shown as it is. Of a longer one as many characters are shown as take
/// no more than the limit in UTF-8, not one fewer, and then an ellipsis.
pub proof fn law_as_much_as_fits_is_shown(s: Seq<char>, limit: int)
    requires
        0 <= limit,
    ensures
        encode_utf8(s).len() <= limit ==> shortened(s, limit) == s,
        encode_utf8(s).len() > limit ==> exists|k: int|
            0 <= k < s.len() && shortened(s, limit) == #[trigger] s.take(k) + "…"@
                && encode_utf8(s.take(k)).len() <= limit && encode_utf8(s.take(k + 1)).len()
                > limit,
{
    if byte_len(s) > limit {
        lemma_chars_within_fit(s, limit);
        lemma_one_more_is_too_many(s, limit);
        let k = chars_within(s, limit);
        if k == s.len() {
            assert(s.take(k) =~= s);
        }
        assert(shortened(s, limit) == s.take(k) + "…"@);
    }
}

proof fn lemma_one_more_is_too_many(s: Seq<char>, limit: int)
    requires
        0 <= limit,
    ensures
        chars_within(s, limit) < s.len() ==> byte_len(s.take(chars_within(s, limit) + 1)) > limit,
    decreases s.len(),
{
    if byte_len(s) > limit && s.len() > 0 {
        let rest = s.drop_last();
        lemma_chars_within_fit(rest, limit);
        lemma_one_more_is_too_many(rest, limit);
        let k = chars_within(s, limit);
        if k < rest.len() {
            assert(rest.take(k + 1) =~= s.take(k + 1));
        } else {
            assert(s.take(k + 1) =~= s);
        }
    }
}

/// Each digit that is added makes ten times the number and the digit; anything else makes it no
/// number.
pub proof fn law_digits_count_by_ten(s: Seq<char>, c: char)
    ensures
        digits_value(Seq::<char>::empty()) == Some(0int),
        digits_value(s.push(c)) == match digits_value(s) {
            Some(v) => if 48 <= c as int <= 57 {
                Some(10 * v + (c as int - 48))
            } else {
                None
            },
            None => None,
        },
{
    assert(s.push(c).drop_last() =~= s);
}

/// A text reads as a number exactly if it is digits, at least one, with at most one sign before
/// them, and the number fits into sixty-four bits.
pub proof fn law_what_reads_as_a_number(s: Seq<char>)
    ensures
        ({
            let plain = digits_value(s);
            &&& plain matches Some(v) ==> s.len() > 0 ==> parsed_i64(s) == if v
                <= 0x7fff_ffff_ffff_ffff {
                Some(v)
            } else {
                None
            }
            &&& plain matches Some(v) ==> s.len() > 0 ==> parsed_i64(seq!['+'] + s) == if v
                <= 0x7fff_ffff_ffff_ffff {
                Some(v)
            } else {
                None
            }
            &&& plain matches Some(v) ==> s.len() > 0 ==> parsed_i64(seq!['-'] + s) == if v
                <= 0x8000_0000_0000_0000 {
                Some(-v)
            } else {
                None
            }
            &&& plain is None || s.len() == 0 ==> parsed_i64(seq!['+'] + s) is None
            &&& plain is None || s.len() == 0 ==> parsed_i64(seq!['-'] + s) is None
            &&& s.len() > 0 && s[0] != '+' && s[0] != '-' && plain is None ==> parsed_i64(s) is None
            &&& s.len() == 0 ==> parsed_i64(s) is None
        }),
{
    assert((seq!['+'] + s).drop_first() =~= s);
    assert((seq!['-'] + s).drop_first() =~= s);
    if digits_value(s) is Some && s.len() > 0 {
        lemma_more_digits(s, 1);
        lemma_more_digits(s, 0);
        let first = s.take(1);
        assert(first.last() == s[0]);
        assert(first.drop_last() =~= Seq::<char>::empty());
        assert(digits_value(first) is Some);
        assert(is_digit(s[0]));
    }
}

/// The texts of a list are those of its strings, each in its place.
pub proof fn law_texts_stand_in_place(v: Seq<String>, i: int)
    ensures
        texts(v).len() == v.len(),
        0 <= i < v.len() ==> texts(v)[i] == v[i]@,
{
}

} // verus!
