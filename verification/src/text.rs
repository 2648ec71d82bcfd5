//! Text primitives: every operation is stated over the characters of its arguments.

use vstd::prelude::*;

verus! {

/// `String::push` appends one character and keeps what was there.
pub assume_specification[ String::push ](value: &mut String, character: char)
    ensures
        final(value)@ == old(value)@.push(character),
;

/// `str::trim` drops the leading and the trailing characters that have Unicode's `White_Space`
/// property, and nothing in between.
pub assume_specification[ str::trim ](value: &str) -> (rest: &str)
    ensures
        rest@ == trimmed(value@),
;

/// The characters that have Unicode's `White_Space` property.
pub open spec fn is_white_space(c: char) -> bool {
    let n = c as u32;
    ||| 0x9 <= n <= 0xd
    ||| n == 0x20
    ||| n == 0x85
    ||| n == 0xa0
    ||| n == 0x1680
    ||| 0x2000 <= n <= 0x200a
    ||| n == 0x2028
    ||| n == 0x2029
    ||| n == 0x202f
    ||| n == 0x205f
    ||| n == 0x3000
}

/// `s` without its leading white space.
pub open spec fn trim_start(s: Seq<char>) -> Seq<char>
    decreases s.len(),
{
    if s.len() > 0 && is_white_space(s[0]) {
        trim_start(s.drop_first())
    } else {
        s
    }
}

/// `s` without its trailing white space.
pub open spec fn trim_end(s: Seq<char>) -> Seq<char>
    decreases s.len(),
{
    if s.len() > 0 && is_white_space(s.last()) {
        trim_end(s.drop_last())
    } else {
        s
    }
}

/// `s` without the white space around it.
pub open spec fn trimmed(s: Seq<char>) -> Seq<char> {
    trim_end(trim_start(s))
}

/// Nothing but white space.
pub open spec fn is_blank(s: Seq<char>) -> bool {
    trimmed(s).len() == 0
}

/// The texts that a vector of strings holds.
pub open spec fn texts(v: Seq<String>) -> Seq<Seq<char>> {
    v.map_values(|s: String| s@)
}

/// The text that an optional string holds.
pub open spec fn opt_text(v: Option<String>) -> Option<Seq<char>> {
    match v {
        Some(s) => Some(s@),
        None => None,
    }
}

/// The text that an optional string slice holds.
pub open spec fn opt_str(v: Option<&str>) -> Option<Seq<char>> {
    match v {
        Some(s) => Some(s@),
        None => None,
    }
}

/// An absent text reads as the empty one.
pub open spec fn or_empty(v: Option<Seq<char>>) -> Seq<char> {
    match v {
        Some(s) => s,
        None => Seq::empty(),
    }
}

/// `c` with ASCII letters made lower case.
pub open spec fn ascii_lower(c: char) -> char {
    if 'A' <= c <= 'Z' {
        (c as u32 + 32) as char
    } else {
        c
    }
}

/// The upper-case form of an ASCII letter; any other character is its own.
pub open spec fn ascii_upper(c: char) -> char {
    if 'a' <= c <= 'z' {
        (c as u32 - 32) as char
    } else {
        c
    }
}

/// `s` with ASCII letters made upper case.
pub open spec fn ascii_uppered(s: Seq<char>) -> Seq<char> {
    s.map_values(|c: char| ascii_upper(c))
}

/// `s` with ASCII letters made lower case.
pub open spec fn ascii_lowered(s: Seq<char>) -> Seq<char> {
    s.map_values(|c: char| ascii_lower(c))
}

/// `s` with every copy of `suffix` at its end removed.
pub open spec fn without_suffixes(s: Seq<char>, suffix: Seq<char>) -> Seq<char>
    decreases s.len(),
{
    if 0 < suffix.len() <= s.len() && s.skip(s.len() - suffix.len()) == suffix {
        without_suffixes(s.take(s.len() - suffix.len()), suffix)
    } else {
        s
    }
}

/// `s` with every copy of `prefix` at its start removed.
pub open spec fn without_prefixes(s: Seq<char>, prefix: Seq<char>) -> Seq<char>
    decreases s.len(),
{
    if 0 < prefix.len() && prefix.is_prefix_of(s) {
        without_prefixes(s.skip(prefix.len() as int), prefix)
    } else {
        s
    }
}

/// The part of `s` in front of the first `stop`, or all of it.
pub open spec fn before(s: Seq<char>, stop: char) -> Seq<char>
    decreases s.len(),
{
    if s.len() == 0 || s[0] == stop {
        Seq::empty()
    } else {
        seq![s[0]] + before(s.drop_first(), stop)
    }
}

/// `needle` stands somewhere in `s`.
pub open spec fn contains_text(s: Seq<char>, needle: Seq<char>) -> bool {
    exists|i: int|
        0 <= i <= s.len() - needle.len() && #[trigger] s.subrange(i, i + needle.len()) == needle
}

/// The parts in order, with `separator` between neighbours.
pub open spec fn joined(parts: Seq<Seq<char>>, separator: Seq<char>) -> Seq<char>
    decreases parts.len(),
{
    if parts.len() == 0 {
        Seq::empty()
    } else if parts.len() == 1 {
        parts[0]
    } else {
        joined(parts.drop_last(), separator) + separator + parts.last()
    }
}

/// The character of a decimal digit.
pub open spec fn digit(d: nat) -> char {
    ('0' as u32 + d) as char
}

/// `n` in decimal, without leading zeros.
pub open spec fn decimal(n: nat) -> Seq<char>
    decreases n,
{
    if n < 10 {
        seq![digit(n)]
    } else {
        decimal(n / 10).push(digit(n % 10))
    }
}

/// `n` in decimal, with a minus sign when it is negative.
pub open spec fn signed_decimal(n: int) -> Seq<char> {
    if n < 0 {
        seq!['-'] + decimal((-n) as nat)
    } else {
        decimal(n as nat)
    }
}

/// Every character is an ASCII digit.
pub open spec fn all_digits(s: Seq<char>) -> bool {
    forall|i: int| 0 <= i < s.len() ==> '0' <= #[trigger] s[i] <= '9'
}

/// The number that a run of ASCII digits stands for.
pub open spec fn digits_value(s: Seq<char>) -> nat
    decreases s.len(),
{
    if s.len() == 0 {
        0
    } else {
        digits_value(s.drop_last()) * 10 + (s.last() as nat - '0' as nat) as nat
    }
}

/// The number that `s` stands for: one plus sign at most, then digits, no more than `max`.
pub open spec fn parsed_unsigned(s: Seq<char>, max: nat) -> Option<nat> {
    let digits = if s.len() > 0 && s[0] == '+' {
        s.drop_first()
    } else {
        s
    };
    if digits.len() > 0 && all_digits(digits) && digits_value(digits) <= max {
        Some(digits_value(digits))
    } else {
        None
    }
}

/// `a` stands in front of `b` in the order of their code points.
pub open spec fn text_less(a: Seq<char>, b: Seq<char>) -> bool
    decreases a.len(),
{
    if b.len() == 0 {
        false
    } else if a.len() == 0 {
        true
    } else if a[0] != b[0] {
        a[0] < b[0]
    } else {
        text_less(a.drop_first(), b.drop_first())
    }
}

/// `n` copies of `c`.
pub open spec fn repeated(c: char, n: nat) -> Seq<char> {
    Seq::new(n, |i: int| c)
}

/// `s` moved to the right edge of a field of `width` characters.
pub open spec fn padded_left(s: Seq<char>, width: nat) -> Seq<char> {
    if s.len() < width {
        repeated(' ', (width - s.len()) as nat) + s
    } else {
        s
    }
}

/// `s` moved to the left edge of a field of `width` characters.
pub open spec fn padded_right(s: Seq<char>, width: nat) -> Seq<char> {
    if s.len() < width {
        s + repeated(' ', (width - s.len()) as nat)
    } else {
        s
    }
}

/// Two texts are alike when ASCII case is ignored.
pub open spec fn same_ignoring_case(a: Seq<char>, b: Seq<char>) -> bool {
    ascii_lowered(a) == ascii_lowered(b)
}

/// The characters of a text.
pub fn chars_of(text: &str) -> (chars: Vec<char>)
    ensures
        chars@ == text@,
{
    let mut chars: Vec<char> = Vec::new();
    for c in it: text.chars()
        invariant
            chars@ == text@.take(it.index()),
            it.seq() == text@,
    {
        chars.push(c);
        assert(text@.take(it.index() as int + 1) == text@.take(it.index() as int).push(c));
    }
    assert(text@.take(text@.len() as int) == text@);
    chars
}

/// The text of the characters from `from` up to `to`.
pub fn text_between(chars: &Vec<char>, from: usize, to: usize) -> (text: String)
    requires
        from <= to <= chars@.len(),
    ensures
        text@ == chars@.subrange(from as int, to as int),
{
    let mut text = String::new();
    for i in from..to
        invariant
            from <= to <= chars@.len(),
            text@ == chars@.subrange(from as int, i as int),
    {
        text.push(chars[i]);
        assert(chars@.subrange(from as int, i as int + 1) == chars@.subrange(
            from as int,
            i as int,
        ).push(chars@[i as int]));
    }
    text
}

/// The UTF-8 form of a text.
pub fn utf8_bytes(text: &str) -> (bytes: Vec<u8>)
    ensures
        bytes@ == vstd::utf8::encode_utf8(text@),
{
    text.as_bytes_vec()
}

/// Whether two texts hold the same characters.
pub fn same_text(a: &str, b: &str) -> (same: bool)
    ensures
        same == (a@ == b@),
{
    let left = chars_of(a);
    let right = chars_of(b);
    same_chars(&left, &right)
}

/// Whether two runs of characters are equal.
pub fn same_chars(a: &Vec<char>, b: &Vec<char>) -> (same: bool)
    ensures
        same == (a@ == b@),
{
    if a.len() != b.len() {
        return false;
    }
    for i in 0..a.len()
        invariant
            a@.len() == b@.len(),
            forall|j: int| 0 <= j < i ==> a@[j] == b@[j],
    {
        if a[i] != b[i] {
            return false;
        }
    }
    assert(a@ =~= b@);
    true
}

/// Whether two optional strings hold the same text.
pub fn same_opt_text(a: &Option<String>, b: &Option<String>) -> (same: bool)
    ensures
        same == (opt_text(*a) == opt_text(*b)),
{
    match (a, b) {
        (Some(x), Some(y)) => *x == *y,
        (None, None) => true,
        _ => false,
    }
}

/// Whether two vectors hold the same texts in the same order.
pub fn same_texts(a: &Vec<String>, b: &Vec<String>) -> (same: bool)
    ensures
        same == (texts(a@) == texts(b@)),
{
    if a.len() != b.len() {
        assert(texts(a@).len() != texts(b@).len());
        return false;
    }
    for i in 0..a.len()
        invariant
            a@.len() == b@.len(),
            forall|j: int| 0 <= j < i ==> a@[j]@ == b@[j]@,
    {
        if a[i] != b[i] {
            assert(texts(a@)[i as int] != texts(b@)[i as int]);
            return false;
        }
    }
    assert(texts(a@) =~= texts(b@));
    true
}

/// A copy of a vector of strings.
pub fn clone_texts(v: &Vec<String>) -> (copy: Vec<String>)
    ensures
        copy@ == v@,
{
    let copy = v.clone();
    assert(copy@ =~= v@);
    copy
}

/// The string in `v`, or the empty one.
pub fn text_or_empty(v: &Option<String>) -> (text: String)
    ensures
        text@ == or_empty(opt_text(*v)),
{
    match v {
        Some(text) => text.clone(),
        None => String::new(),
    }
}

/// Whether `text` begins with `prefix`.
pub fn begins_with(text: &str, prefix: &str) -> (found: bool)
    ensures
        found == prefix@.is_prefix_of(text@),
{
    let whole = chars_of(text);
    let head = chars_of(prefix);
    stands_at(&whole, 0, &head)
}

/// Whether `needle` stands in `chars` from position `at` on.
pub fn stands_at(chars: &Vec<char>, at: usize, needle: &Vec<char>) -> (found: bool)
    requires
        at <= chars@.len(),
    ensures
        found == needle@.is_prefix_of(chars@.skip(at as int)),
{
    if chars.len() - at < needle.len() {
        return false;
    }
    for i in 0..needle.len()
        invariant
            at + needle.len() <= chars.len(),
            forall|j: int| 0 <= j < i ==> chars@[at + j] == needle@[j],
    {
        if chars[at + i] != needle[i] {
            assert(chars@.skip(at as int)[i as int] != needle@[i as int]);
            return false;
        }
    }
    assert(chars@.skip(at as int).take(needle@.len() as int) =~= needle@);
    true
}

/// The rest of `text` behind `prefix`, when it begins with it.
pub fn strip_prefix(text: &str, prefix: &str) -> (rest: Option<String>)
    ensures
        rest is Some == prefix@.is_prefix_of(text@),
        rest is Some ==> rest->0@ == text@.skip(prefix@.len() as int),
{
    let whole = chars_of(text);
    let head = chars_of(prefix);
    if stands_at(&whole, 0, &head) {
        let rest = text_between(&whole, head.len(), whole.len());
        assert(rest@ == text@.skip(prefix@.len() as int));
        Some(rest)
    } else {
        None
    }
}

/// `text` with every copy of `suffix` at its end removed.
pub fn trim_suffixes(text: &str, suffix: &str) -> (rest: String)
    ensures
        rest@ == without_suffixes(text@, suffix@),
{
    let whole = chars_of(text);
    let tail = chars_of(suffix);
    let mut end: usize = whole.len();
    if tail.len() == 0 {
        return text.to_owned();
    }
    assert(whole@.take(end as int) == whole@);
    while tail.len() <= end
        invariant_except_break
            without_suffixes(whole@.take(end as int), suffix@) == without_suffixes(text@, suffix@),
        invariant
            end <= whole@.len(),
            0 < tail@.len(),
            tail@ == suffix@,
        ensures
            whole@.take(end as int) == without_suffixes(text@, suffix@),
        decreases end,
    {
        let at: usize = end - tail.len();
        let ghost current = whole@.take(end as int);
        assert(current.skip(at as int) =~= whole@.skip(at as int).take(tail@.len() as int));
        if !stands_at(&whole, at, &tail) {
            break;
        }
        assert(current.take(at as int) =~= whole@.take(at as int));
        end = at;
    }
    text_between(&whole, 0, end)
}

/// `text` with every copy of `prefix` at its start removed.
pub fn trim_prefixes(text: &str, prefix: &str) -> (rest: String)
    ensures
        rest@ == without_prefixes(text@, prefix@),
{
    let whole = chars_of(text);
    let head = chars_of(prefix);
    let mut start: usize = 0;
    if head.len() == 0 {
        return text.to_owned();
    }
    assert(whole@.skip(0) == whole@);
    while stands_at(&whole, start, &head)
        invariant
            start <= whole.len(),
            0 < head@.len(),
            head@ == prefix@,
            without_prefixes(whole@.skip(start as int), prefix@) == without_prefixes(
                text@,
                prefix@,
            ),
        decreases whole.len() - start,
    {
        assert(whole@.skip(start as int).skip(head@.len() as int) =~= whole@.skip(
            start + head@.len(),
        ));
        assert(head@.len() <= whole@.skip(start as int).len());
        start = start + head.len();
    }
    assert(whole@.subrange(start as int, whole@.len() as int) =~= whole@.skip(start as int));
    text_between(&whole, start, whole.len())
}

/// The part of `text` in front of the first `stop`, or all of it.
pub fn text_before(text: &str, stop: char) -> (head: String)
    ensures
        head@ == before(text@, stop),
{
    let mut head = String::new();
    let ghost whole = text@;
    let chars = chars_of(text);
    assert(whole.skip(0) == whole);
    for i in 0..chars.len()
        invariant
            chars@ == whole,
            whole == text@,
            head@ + before(whole.skip(i as int), stop) == before(whole, stop),
    {
        let ghost rest = whole.skip(i as int);
        assert(rest.drop_first() =~= whole.skip(i as int + 1));
        assert(rest[0] == chars@[i as int]);
        if chars[i] == stop {
            assert(head@ + before(rest, stop) =~= head@);
            return head;
        }
        let ghost so_far = head@;
        head.push(chars[i]);
        assert(so_far + (seq![rest[0]] + before(rest.drop_first(), stop)) =~= head@ + before(
            rest.drop_first(),
            stop,
        ));
    }
    assert(head@ + before(whole.skip(chars@.len() as int), stop) =~= head@);
    head
}

/// `text` with ASCII letters made lower case.
pub fn to_ascii_lower(text: &str) -> (lowered: String)
    ensures
        lowered@ == ascii_lowered(text@),
{
    let mut lowered = String::new();
    let chars = chars_of(text);
    for i in 0..chars.len()
        invariant
            lowered@ == ascii_lowered(chars@.take(i as int)),
    {
        lowered.push(char_to_ascii_lower(chars[i]));
        assert(ascii_lowered(chars@.take(i as int + 1)) =~= ascii_lowered(
            chars@.take(i as int),
        ).push(ascii_lower(chars@[i as int])));
    }
    assert(chars@.take(chars@.len() as int) == chars@);
    lowered
}

/// `c` with an ASCII letter made lower case.
pub fn char_to_ascii_lower(c: char) -> (lowered: char)
    ensures
        lowered == ascii_lower(c),
{
    if 'A' <= c && c <= 'Z' {
        (c as u8 + 32) as char
    } else {
        c
    }
}

/// Whether two texts are alike when ASCII case is ignored.
pub fn alike_ignoring_case(a: &str, b: &str) -> (alike: bool)
    ensures
        alike == same_ignoring_case(a@, b@),
{
    to_ascii_lower(a) == to_ascii_lower(b)
}

/// Whether `needle` stands somewhere in `text`.
pub fn has_text(text: &str, needle: &str) -> (found: bool)
    ensures
        found == contains_text(text@, needle@),
{
    let whole = chars_of(text);
    let part = chars_of(needle);
    if part.len() == 0 {
        assert(text@.subrange(0int, 0int + needle@.len()) =~= needle@);
        return true;
    }
    if whole.len() < part.len() {
        return false;
    }
    let last: usize = whole.len() - part.len();
    for at in 0..last + 1
        invariant
            whole@ == text@,
            part@ == needle@,
            last == whole@.len() - part@.len(),
            whole.len() >= part.len(),
            forall|j: int| 0 <= j < at ==> #[trigger] text@.subrange(j, j + needle@.len()) != needle@,
    {
        assert(text@.subrange(at as int, at + needle@.len()) =~= whole@.skip(at as int).take(
            part@.len() as int,
        ));
        if stands_at(&whole, at, &part) {
            return true;
        }
    }
    false
}

/// The parts in order, with `separator` between neighbours.
pub fn join(parts: &Vec<String>, separator: &str) -> (whole: String)
    ensures
        whole@ == joined(texts(parts@), separator@),
{
    let mut whole = String::new();
    let ghost all = texts(parts@);
    for i in 0..parts.len()
        invariant
            all == texts(parts@),
            whole@ == joined(all.take(i as int), separator@),
    {
        if i > 0 {
            whole.append(separator);
        }
        whole.append(parts[i].as_str());
        assert(all.take(i as int + 1).drop_last() =~= all.take(i as int));
        assert(all.take(i as int + 1).last() == parts@[i as int]@);
    }
    assert(all.take(parts@.len() as int) == all);
    whole
}

/// The character of a decimal digit.
pub fn digit_char(d: u8) -> (c: char)
    requires
        d < 10,
    ensures
        c == digit(d as nat),
{
    (48 + d) as char
}

/// `n` in decimal.
pub fn to_decimal(n: u64) -> (text: String)
    ensures
        text@ == decimal(n as nat),
    decreases n,
{
    if n < 10 {
        let mut text = String::new();
        text.push(digit_char(n as u8));
        assert(text@ =~= seq![digit(n as nat)]);
        text
    } else {
        let mut text = to_decimal(n / 10);
        text.push(digit_char((n % 10) as u8));
        text
    }
}

/// `n` in decimal, with a minus sign when it is negative.
pub fn to_signed_decimal(n: i64) -> (text: String)
    ensures
        text@ == signed_decimal(n as int),
{
    if n < 0 {
        let mut text = String::new();
        text.push('-');
        // The magnitude of the smallest value does not fit the type, so it is taken from one above.
        let magnitude: u64 = (-(n + 1)) as u64 + 1;
        text.append(to_decimal(magnitude).as_str());
        assert(text@ =~= seq!['-'] + decimal(magnitude as nat));
        text
    } else {
        to_decimal(n as u64)
    }
}

/// A longer run of digits stands for no smaller a number.
proof fn lemma_digits_grow(s: Seq<char>, n: int)
    requires
        0 <= n <= s.len(),
    ensures
        digits_value(s.take(n)) <= digits_value(s),
    decreases s.len(),
{
    if n == s.len() {
        assert(s.take(n) == s);
    } else {
        lemma_digits_grow(s.drop_last(), n);
        assert(s.drop_last().take(n) =~= s.take(n));
    }
}

/// The number that `text` stands for: one plus sign at most, then digits, no more than `max`.
pub fn parse_unsigned(text: &str, max: u64) -> (number: Option<u64>)
    ensures
        number is Some == parsed_unsigned(text@, max as nat) is Some,
        number is Some ==> number->0 as nat == parsed_unsigned(text@, max as nat)->0,
{
    let chars = chars_of(text);
    let start: usize = if chars.len() > 0 && chars[0] == '+' {
        1
    } else {
        0
    };
    let ghost digits = text@.skip(start as int);
    assert(start == 1 ==> digits =~= text@.drop_first());
    assert(start == 0 ==> digits =~= text@);
    if start == chars.len() {
        return None;
    }
    let mut number: u64 = 0;
    for i in start..chars.len()
        invariant
            start <= chars@.len(),
            chars@ == text@,
            digits == text@.skip(start as int),
            parsed_unsigned(text@, max as nat) == (if digits.len() > 0 && all_digits(digits)
                && digits_value(digits) <= max {
                Some(digits_value(digits))
            } else {
                None
            }),
            forall|j: int| 0 <= j < i - start ==> '0' <= #[trigger] digits[j] <= '9',
            number == digits_value(digits.take(i - start)),
            number <= max,
    {
        let c = chars[i];
        let ghost at = i - start;
        assert(digits[at] == c);
        if !('0' <= c && c <= '9') {
            return None;
        }
        let d: u64 = c as u64 - 48;
        assert(digits.take(at + 1).drop_last() =~= digits.take(at));
        assert(digits_value(digits.take(at + 1)) == number * 10 + d);
        proof {
            lemma_digits_grow(digits, at + 1);
        }
        if number > (u64::MAX - d) / 10 {
            return None;
        }
        let next: u64 = number * 10 + d;
        if next > max {
            return None;
        }
        number = next;
    }
    assert(digits.take(digits.len() as int) == digits);
    Some(number)
}

/// Whether `a` stands in front of `b` in the order of their code points.
pub fn comes_before(a: &str, b: &str) -> (less: bool)
    ensures
        less == text_less(a@, b@),
{
    let left = chars_of(a);
    let right = chars_of(b);
    let mut i: usize = 0;
    assert(left@.skip(0) == left@);
    assert(right@.skip(0) == right@);
    while i < left.len() && i < right.len()
        invariant
            i <= left.len(),
            i <= right.len(),
            text_less(left@.skip(i as int), right@.skip(i as int)) == text_less(a@, b@),
        decreases left.len() - i,
    {
        let ghost x = left@.skip(i as int);
        let ghost y = right@.skip(i as int);
        assert(x[0] == left@[i as int] && y[0] == right@[i as int]);
        if left[i] != right[i] {
            return left[i] < right[i];
        }
        assert(x.drop_first() =~= left@.skip(i as int + 1));
        assert(y.drop_first() =~= right@.skip(i as int + 1));
        i = i + 1;
    }
    i < right.len()
}

/// The order of texts is strict: at most one of two texts stands in front of the other, and
/// unequal texts are never side by side.
pub proof fn lemma_text_order_total(a: Seq<char>, b: Seq<char>)
    ensures
        !(text_less(a, b) && text_less(b, a)),
        text_less(a, b) || text_less(b, a) || a == b,
        !text_less(a, a),
    decreases a.len(),
{
    if a.len() > 0 {
        lemma_text_order_total(a.drop_first(), a.drop_first());
    }
    if a.len() > 0 && b.len() > 0 {
        lemma_text_order_total(a.drop_first(), b.drop_first());
        if a[0] == b[0] && a.drop_first() == b.drop_first() {
            assert(a =~= seq![a[0]] + a.drop_first());
            assert(b =~= seq![b[0]] + b.drop_first());
        }
    } else if a.len() == 0 && b.len() == 0 {
        assert(a =~= b);
    }
}

/// The order of texts is transitive.
pub proof fn lemma_text_order_transitive(a: Seq<char>, b: Seq<char>, c: Seq<char>)
    requires
        text_less(a, b),
        text_less(b, c),
    ensures
        text_less(a, c),
    decreases a.len(),
{
    if a.len() > 0 && a[0] == b[0] && b[0] == c[0] {
        lemma_text_order_transitive(a.drop_first(), b.drop_first(), c.drop_first());
    }
}

/// `count` copies of `c`.
pub fn repeat_char(c: char, count: usize) -> (text: String)
    ensures
        text@ == repeated(c, count as nat),
{
    let mut text = String::new();
    for i in 0..count
        invariant
            text@ == repeated(c, i as nat),
    {
        text.push(c);
        assert(repeated(c, i as nat).push(c) =~= repeated(c, i as nat + 1));
    }
    text
}

/// `text` moved to the right edge of a field of `width` characters.
pub fn pad_left(text: &str, width: usize) -> (padded: String)
    ensures
        padded@ == padded_left(text@, width as nat),
{
    let length: usize = text.unicode_len();
    if length < width {
        let mut padded = repeat_char(' ', width - length);
        padded.append(text);
        padded
    } else {
        text.to_owned()
    }
}

/// `text` moved to the left edge of a field of `width` characters.
pub fn pad_right(text: &str, width: usize) -> (padded: String)
    ensures
        padded@ == padded_right(text@, width as nat),
{
    let length: usize = text.unicode_len();
    let mut padded = text.to_owned();
    if length < width {
        padded.append(repeat_char(' ', width - length).as_str());
    }
    padded
}

/// A text is blank exactly when each of its characters is white space.
pub proof fn law_blank_means_white_space(s: Seq<char>)
    ensures
        is_blank(s) == (forall|i: int| 0 <= i < s.len() ==> is_white_space(#[trigger] s[i])),
    decreases s.len(),
{
    if s.len() > 0 {
        if is_white_space(s[0]) {
            law_blank_means_white_space(s.drop_first());
            assert(forall|i: int| 0 <= i < s.len() - 1 ==> s.drop_first()[i] == s[i + 1]);
            if forall|i: int| 0 <= i < s.drop_first().len() ==> is_white_space(
                #[trigger] s.drop_first()[i],
            ) {
                assert forall|i: int| 0 <= i < s.len() implies is_white_space(#[trigger] s[i]) by {
                    if i > 0 {
                        assert(s.drop_first()[i - 1] == s[i]);
                    }
                }
            }
        } else {
            lemma_trim_end_keeps_first(s);
        }
    }
}

/// Trailing white space is all that `trim_end` drops, so a first character that is none stays.
proof fn lemma_trim_end_keeps_first(s: Seq<char>)
    requires
        s.len() > 0,
        !is_white_space(s[0]),
    ensures
        trim_end(s).len() > 0,
    decreases s.len(),
{
    if is_white_space(s.last()) {
        lemma_trim_end_keeps_first(s.drop_last());
    }
}

/// Two characters are the same letter, or the same character, when ASCII case is ignored.
pub open spec fn same_letter(a: char, b: char) -> bool {
    a == b || ('A' <= a <= 'Z' && b as u32 == a as u32 + 32) || ('A' <= b <= 'Z' && a as u32 == b
        as u32 + 32)
}

/// Texts are alike without regard to ASCII case exactly when they are as long as each other and
/// agree letter by letter, but for the case of the letters from A to Z.
pub proof fn law_likeness_is_letter_by_letter(a: Seq<char>, b: Seq<char>)
    ensures
        same_ignoring_case(a, b) <==> a.len() == b.len() && forall|i: int|
            0 <= i < a.len() ==> same_letter(#[trigger] a[i], b[i]),
{
    if same_ignoring_case(a, b) {
        assert(ascii_lowered(a).len() == a.len() && ascii_lowered(b).len() == b.len());
        assert forall|i: int| 0 <= i < a.len() implies same_letter(#[trigger] a[i], b[i]) by {
            assert(ascii_lowered(a)[i] == ascii_lower(a[i]));
            assert(ascii_lowered(b)[i] == ascii_lower(b[i]));
        }
    }
    if a.len() == b.len() && forall|i: int| 0 <= i < a.len() ==> same_letter(#[trigger] a[i], b[i]) {
        assert forall|i: int| 0 <= i < a.len() implies ascii_lower(#[trigger] a[i]) == ascii_lower(
            b[i],
        ) by {}
        assert(ascii_lowered(a) =~= ascii_lowered(b));
    }
}

/// Made lower case, a text is alike without regard to case, and has no letter from A to Z left.
pub proof fn law_lower_case_has_no_capitals(s: Seq<char>)
    ensures
        ascii_lowered(s).len() == s.len(),
        forall|i: int|
            0 <= i < s.len() ==> same_letter(#[trigger] ascii_lowered(s)[i], s[i]) && !('A'
                <= ascii_lowered(s)[i] <= 'Z'),
{
    assert forall|i: int| 0 <= i < s.len() implies same_letter(
        #[trigger] ascii_lowered(s)[i],
        s[i],
    ) && !('A' <= ascii_lowered(s)[i] <= 'Z') by {
        assert(ascii_lowered(s)[i] == ascii_lower(s[i]));
    }
}

/// Joined texts come apart again at the separators: what is joined first and what is joined after
/// stand on either side of one, one text alone stays as it is, and no text makes nothing.
pub proof fn law_joining_goes_part_by_part(
    front: Seq<Seq<char>>,
    back: Seq<Seq<char>>,
    separator: Seq<char>,
)
    requires
        front.len() > 0,
        back.len() > 0,
    ensures
        joined(front + back, separator) == joined(front, separator) + separator + joined(
            back,
            separator,
        ),
        joined(front.take(1), separator) == front[0],
        joined(Seq::empty(), separator) == Seq::<char>::empty(),
    decreases back.len(),
{
    let all = front + back;
    assert(all.drop_last() =~= front + back.drop_last());
    assert(all.last() == back.last());
    if back.len() > 1 {
        law_joining_goes_part_by_part(front, back.drop_last(), separator);
        assert(joined(all, separator) =~= joined(front, separator) + separator + joined(
            back,
            separator,
        ));
    } else {
        assert(back.drop_last() =~= Seq::empty());
        assert(all.drop_last() =~= front);
    }
}

/// Ten to the power of a length.
pub open spec fn power_of_ten(count: nat) -> nat
    decreases count,
{
    if count == 0 {
        1
    } else {
        10 * power_of_ten((count - 1) as nat)
    }
}

/// A run of digits counts in tens: the front counts ten times as much for each digit behind it, and
/// a digit alone counts what it says.
pub proof fn law_digits_count_in_tens(front: Seq<char>, back: Seq<char>)
    requires
        all_digits(front),
        all_digits(back),
    ensures
        digits_value(front + back) == digits_value(front) * power_of_ten(back.len())
            + digits_value(back),
        back.len() == 1 ==> digits_value(back) == back[0] as nat - 48,
    decreases back.len(),
{
    if back.len() == 0 {
        assert(front + back =~= front);
        assert(digits_value(front) * 1 == digits_value(front));
    } else {
        let less = back.drop_last();
        assert forall|i: int| 0 <= i < less.len() implies '0' <= #[trigger] less[i] <= '9' by {
            assert(less[i] == back[i]);
        }
        law_digits_count_in_tens(front, less);
        assert((front + back).drop_last() =~= front + less);
        let a = digits_value(front);
        let p = power_of_ten(less.len());
        assert((a * p) * 10 == a * (10 * p)) by (nonlinear_arith);
        if back.len() == 1 {
            assert(digits_value(less) == 0);
        }
    }
}

/// A number in decimal is read back as that number, has no sign and no needless zero in front, and
/// is refused exactly where it is larger than allowed.
pub proof fn law_decimals_are_read_back(n: nat, max: nat)
    ensures
        all_digits(decimal(n)),
        decimal(n).len() > 0,
        decimal(n)[0] == '0' ==> n == 0,
        digits_value(decimal(n)) == n,
        parsed_unsigned(decimal(n), max) == (if n <= max {
            Some(n)
        } else {
            None
        }),
        parsed_unsigned(seq!['+'] + decimal(n), max) == parsed_unsigned(decimal(n), max),
        parsed_unsigned(seq!['-'] + decimal(n), max) is None,
        parsed_unsigned(Seq::empty(), max) is None,
    decreases n,
{
    if n >= 10 {
        law_decimals_are_read_back(n / 10, max);
        let front = decimal(n / 10);
        let whole = decimal(n);
        assert(whole.drop_last() =~= front);
        assert forall|i: int| 0 <= i < whole.len() implies '0' <= #[trigger] whole[i] <= '9' by {
            if i < front.len() {
                assert(whole[i] == front[i]);
            }
        }
        assert(whole[0] == front[0]);
    } else {
        assert(decimal(n).drop_last() =~= Seq::<char>::empty());
        reveal_with_fuel(digits_value, 2);
    }
    let signed = seq!['+'] + decimal(n);
    assert(signed.drop_first() =~= decimal(n));
    let negative = seq!['-'] + decimal(n);
    assert(negative[0] == '-');
}

/// The first place at which two texts differ decides their order, and a text stands in front of
/// every longer one that begins with it.
pub proof fn law_first_difference_decides(a: Seq<char>, b: Seq<char>, at: int)
    requires
        0 <= at <= a.len(),
        at <= b.len(),
        forall|i: int| 0 <= i < at ==> #[trigger] a[i] == b[i],
    ensures
        at < a.len() && at < b.len() && a[at] != b[at] ==> (text_less(a, b) <==> a[at] < b[at]),
        at == a.len() ==> (text_less(a, b) <==> a.len() < b.len()),
        at == b.len() ==> !text_less(a, b),
    decreases at,
{
    if at > 0 {
        assert(a[0] == b[0]);
        let x = a.drop_first();
        let y = b.drop_first();
        assert forall|i: int| 0 <= i < at - 1 implies #[trigger] x[i] == y[i] by {
            assert(a[i + 1] == b[i + 1]);
        }
        law_first_difference_decides(x, y, at - 1);
    }
}

/// What stands in front of a character has none of it, and the character follows, unless the whole
/// text has none.
pub proof fn law_front_stops_at_the_character(s: Seq<char>, stop: char)
    ensures
        before(s, stop).len() <= s.len(),
        before(s, stop) == s.take(before(s, stop).len() as int),
        !before(s, stop).contains(stop),
        before(s, stop).len() < s.len() ==> s[before(s, stop).len() as int] == stop,
    decreases s.len(),
{
    if s.len() > 0 && s[0] != stop {
        let rest = s.drop_first();
        law_front_stops_at_the_character(rest, stop);
        let front = before(s, stop);
        assert(front.drop_first() =~= before(rest, stop));
        assert(front =~= s.take(front.len() as int));
        if front.contains(stop) {
            let i = choose|i: int| 0 <= i < front.len() && front[i] == stop;
            assert(before(rest, stop)[i - 1] == stop);
        }
    } else {
        assert(before(s, stop) =~= s.take(0));
    }
}

/// A suffix is taken away as often as it stands at the end, and nothing else is: one copy more at
/// the end makes no difference, and what remains does not end with it.
pub proof fn law_suffixes_are_taken_away(s: Seq<char>, suffix: Seq<char>)
    requires
        suffix.len() > 0,
    ensures
        without_suffixes(s + suffix, suffix) == without_suffixes(s, suffix),
        without_suffixes(s, suffix).len() <= s.len(),
        without_suffixes(s, suffix) == s.take(without_suffixes(s, suffix).len() as int),
        ({
            let rest = without_suffixes(s, suffix);
            !(rest.len() >= suffix.len() && rest.skip(rest.len() - suffix.len()) == suffix)
        }),
        !(s.len() >= suffix.len() && s.skip(s.len() - suffix.len()) == suffix) ==> without_suffixes(
            s,
            suffix,
        ) == s,
    decreases s.len(),
{
    let more = s + suffix;
    assert(more.skip(more.len() - suffix.len()) =~= suffix);
    assert(more.take(more.len() - suffix.len()) =~= s);
    if suffix.len() <= s.len() && s.skip(s.len() - suffix.len()) == suffix {
        let less = s.take(s.len() - suffix.len());
        law_suffixes_are_taken_away(less, suffix);
        let rest = without_suffixes(s, suffix);
        assert(rest =~= s.take(rest.len() as int));
    } else {
        assert(s =~= s.take(s.len() as int));
    }
}

/// A prefix is taken away as often as it stands in front, and nothing else is.
pub proof fn law_prefixes_are_taken_away(s: Seq<char>, prefix: Seq<char>)
    requires
        prefix.len() > 0,
    ensures
        without_prefixes(prefix + s, prefix) == without_prefixes(s, prefix),
        !prefix.is_prefix_of(without_prefixes(s, prefix)),
        !prefix.is_prefix_of(s) ==> without_prefixes(s, prefix) == s,
    decreases s.len(),
{
    let more = prefix + s;
    assert(prefix.is_prefix_of(more)) by {
        assert(more.subrange(0, prefix.len() as int) =~= prefix);
    }
    assert(more.skip(prefix.len() as int) =~= s);
    if prefix.is_prefix_of(s) {
        law_prefixes_are_taken_away(s.skip(prefix.len() as int), prefix);
    }
}

/// One text stands in another exactly when the other is made of something, the one, and something.
pub proof fn law_a_text_stands_between_two_others(s: Seq<char>, needle: Seq<char>)
    ensures
        contains_text(s, needle) <==> exists|a: Seq<char>, b: Seq<char>| s == #[trigger] (a + needle
            + b),
{
    if contains_text(s, needle) {
        let i = choose|i: int|
            0 <= i <= s.len() - needle.len() && #[trigger] s.subrange(i, i + needle.len())
                == needle;
        assert(s =~= s.take(i) + needle + s.skip(i + needle.len()));
    }
    if exists|a: Seq<char>, b: Seq<char>| s == #[trigger] (a + needle + b) {
        let (a, b) = choose|a: Seq<char>, b: Seq<char>| s == #[trigger] (a + needle + b);
        assert(s.subrange(a.len() as int, a.len() as int + needle.len()) =~= needle);
    }
}

/// A padded text fills the width, with nothing but blanks added on one side.
pub proof fn law_padding_fills_the_width(s: Seq<char>, width: nat)
    ensures
        s.len() >= width ==> padded_left(s, width) == s && padded_right(s, width) == s,
        s.len() < width ==> {
            &&& padded_left(s, width).len() == width
            &&& padded_left(s, width).skip(width - s.len()) == s
            &&& forall|i: int| 0 <= i < width - s.len() ==> #[trigger] padded_left(s, width)[i] == ' '
            &&& padded_right(s, width).len() == width
            &&& padded_right(s, width).take(s.len() as int) == s
            &&& forall|i: int|
                s.len() <= i < width ==> #[trigger] padded_right(s, width)[i] == ' '
        },
{
    if s.len() < width {
        assert(padded_left(s, width).skip(width - s.len()) =~= s);
        assert(padded_right(s, width).take(s.len() as int) =~= s);
    }
}

/// A text without the white space around it has none at either end, and lost nothing else: in front
/// of it and behind it there was only white space.
pub proof fn law_trimming_takes_white_space_alone(s: Seq<char>)
    ensures
        exists|front: Seq<char>, back: Seq<char>|
            {
                &&& s == #[trigger] (front + trimmed(s) + back)
                &&& forall|i: int| 0 <= i < front.len() ==> is_white_space(#[trigger] front[i])
                &&& forall|i: int| 0 <= i < back.len() ==> is_white_space(#[trigger] back[i])
            },
        trimmed(s).len() > 0 ==> !is_white_space(trimmed(s)[0]) && !is_white_space(
            trimmed(s).last(),
        ),
{
    lemma_trimmed_start(s);
    let middle = trim_start(s);
    lemma_trimmed_end(middle);
    let front = s.take(s.len() - middle.len());
    let back = middle.skip(trimmed(s).len() as int);
    assert(s =~= front + trimmed(s) + back);
    if trimmed(s).len() > 0 {
        assert(trimmed(s)[0] == middle[0]);
    }
}

proof fn lemma_trimmed_start(s: Seq<char>)
    ensures
        trim_start(s).len() <= s.len(),
        trim_start(s) == s.skip(s.len() - trim_start(s).len()),
        forall|i: int|
            0 <= i < s.len() - trim_start(s).len() ==> is_white_space(#[trigger] s[i]),
        trim_start(s).len() > 0 ==> !is_white_space(trim_start(s)[0]),
    decreases s.len(),
{
    if s.len() > 0 && is_white_space(s[0]) {
        let rest = s.drop_first();
        lemma_trimmed_start(rest);
        assert(trim_start(s) =~= s.skip(s.len() - trim_start(s).len()));
        assert forall|i: int| 0 <= i < s.len() - trim_start(s).len() implies is_white_space(
            #[trigger] s[i],
        ) by {
            if i > 0 {
                assert(rest[i - 1] == s[i]);
            }
        }
    } else {
        assert(s =~= s.skip(0));
    }
}

proof fn lemma_trimmed_end(s: Seq<char>)
    ensures
        trim_end(s).len() <= s.len(),
        trim_end(s) == s.take(trim_end(s).len() as int),
        forall|i: int| trim_end(s).len() <= i < s.len() ==> is_white_space(#[trigger] s[i]),
        trim_end(s).len() > 0 ==> !is_white_space(trim_end(s).last()),
    decreases s.len(),
{
    if s.len() > 0 && is_white_space(s.last()) {
        let rest = s.drop_last();
        lemma_trimmed_end(rest);
        assert(trim_end(s) =~= s.take(trim_end(s).len() as int));
        assert forall|i: int| trim_end(s).len() <= i < s.len() implies is_white_space(
            #[trigger] s[i],
        ) by {
            if i < s.len() - 1 {
                assert(rest[i] == s[i]);
            }
        }
    } else {
        assert(s =~= s.take(s.len() as int));
    }
}

/// Contents are shown one by one: those of texts in their order, and those of an optional text
/// where there is one.
pub proof fn law_contents_are_shown_one_by_one(
    parts: Seq<String>,
    text: Option<String>,
    shown: Option<&str>,
    known: Option<Seq<char>>,
)
    ensures
        texts(parts).len() == parts.len(),
        forall|i: int| 0 <= i < parts.len() ==> #[trigger] texts(parts)[i] == parts[i]@,
        text is Some ==> opt_text(text) == Some(text->0@),
        text is None ==> opt_text(text) is None,
        shown is Some ==> opt_str(shown) == Some(shown->0@),
        shown is None ==> opt_str(shown) is None,
        known is Some ==> or_empty(known) == known->0,
        known is None ==> or_empty(known).len() == 0,
{
}

/// A number with a sign is read as its digits, behind a minus sign where it is negative.
pub proof fn law_signs_stand_in_front(n: int)
    ensures
        n >= 0 ==> signed_decimal(n) == decimal(n as nat),
        n < 0 ==> signed_decimal(n) == seq!['-'] + decimal((-n) as nat),
        digits_value(decimal(n as nat)) == n as nat,
{
    law_decimals_are_read_back(n as nat, 0);
}

/// The upper case of a letter is the same letter and never a small one; what is no small ASCII
/// letter stays.
pub proof fn law_upper_case_keeps_the_letter(c: char)
    ensures
        'a' <= c <= 'z' ==> 'A' <= ascii_upper(c) <= 'Z' && ascii_upper(c) as u32 + 32 == c as u32,
        !('a' <= c <= 'z') ==> ascii_upper(c) == c,
{
}

} // verus!
