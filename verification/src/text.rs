//! Words and numbers as text: what the parsers read and what the messages are made of.
//!
//! Every text here is a sequence of characters. The functions that build one state it exactly, so
//! a message elsewhere in the library is a concatenation of literals, names and [`decimal`]s.
use vstd::prelude::*;
use vstd::string::*;

verus! {

/// `String::push` appends one character and leaves the rest of the text as it was.
pub assume_specification[ String::push ](s: &mut String, c: char)
    ensures
        final(s)@ == old(s)@.push(c),
;

// ---------------------------------------------------------------------------------------------
// Decimal numbers
// ---------------------------------------------------------------------------------------------

/// The character of one decimal digit.
pub open spec fn digit(d: nat) -> char {
    (48 + d) as char
}

/// A natural number in decimal, without leading zeros.
pub open spec fn decimal(n: nat) -> Seq<char>
    decreases n,
{
    if n < 10 {
        seq![digit(n)]
    } else {
        decimal(n / 10).push(digit(n % 10))
    }
}

/// An integer in decimal, with a minus sign where it is negative.
pub open spec fn signed_decimal(n: int) -> Seq<char> {
    if n < 0 {
        seq!['-'] + decimal((-n) as nat)
    } else {
        decimal(n as nat)
    }
}

/// Append `n` in decimal.
pub fn push_decimal(out: &mut String, n: u64)
    ensures
        final(out)@ == old(out)@ + decimal(n as nat),
    decreases n,
{
    if n >= 10 {
        push_decimal(out, n / 10);
    }
    out.push((48u8 + (n % 10) as u8) as char);
}

/// Append `n` in decimal, with its sign where it is negative.
pub fn push_signed(out: &mut String, n: i64)
    ensures
        final(out)@ == old(out)@ + signed_decimal(n as int),
{
    if n < 0 {
        out.push('-');
        let magnitude: u64 = if n == i64::MIN {
            0x8000_0000_0000_0000u64
        } else {
            (-n) as u64
        };
        push_decimal(out, magnitude);
    } else {
        push_decimal(out, n as u64);
    }
}

/// `n` in decimal, as a text of its own.
pub fn decimal_text(n: u64) -> (out: String)
    ensures
        out@ == decimal(n as nat),
{
    let mut out = String::new();
    push_decimal(&mut out, n);
    out
}

/// Whether a character is one of the ten decimal digits.
pub open spec fn is_digit(c: char) -> bool {
    '0' <= c && c <= '9'
}

/// The number a run of digits stands for.
pub open spec fn digits_value(s: Seq<char>) -> nat
    decreases s.len(),
{
    if s.len() == 0 {
        0
    } else {
        digits_value(s.drop_last()) * 10 + (s.last() as nat - 48) as nat
    }
}

pub open spec fn all_digits(s: Seq<char>) -> bool {
    forall|i: int| 0 <= i < s.len() ==> is_digit(#[trigger] s[i])
}

/// The digits of an unsigned number: everything behind an optional plus sign.
pub open spec fn unsigned_digits(s: Seq<char>) -> Seq<char> {
    if s.len() > 0 && s[0] == '+' {
        s.drop_first()
    } else {
        s
    }
}

/// The number an unsigned decimal text stands for, if it is one and does not exceed `max`: an
/// optional plus sign and then at least one digit and nothing but digits.
pub open spec fn unsigned_value(s: Seq<char>, max: nat) -> Option<nat> {
    let digits = unsigned_digits(s);
    if digits.len() > 0 && all_digits(digits) && digits_value(digits) <= max {
        Some(digits_value(digits))
    } else {
        None
    }
}

proof fn lemma_digits_value_grows(s: Seq<char>, k: int)
    requires
        all_digits(s),
        0 <= k <= s.len(),
    ensures
        digits_value(s.subrange(0, k)) <= digits_value(s),
    decreases s.len(),
{
    if k == s.len() {
        assert(s.subrange(0, k) =~= s);
    } else {
        let shorter = s.drop_last();
        assert(shorter.subrange(0, k) =~= s.subrange(0, k));
        assert(all_digits(shorter)) by {
            assert forall|i: int| 0 <= i < shorter.len() implies is_digit(#[trigger] shorter[i]) by {
                assert(shorter[i] == s[i]);
            }
        }
        lemma_digits_value_grows(shorter, k);
    }
}

/// The characters of a text, as a vector.
pub fn chars_of(text: &str) -> (out: Vec<char>)
    ensures
        out@ == text@,
{
    let n: usize = text.unicode_len();
    let mut out: Vec<char> = Vec::new();
    let mut i: usize = 0;
    while i < n
        invariant
            i <= n,
            n == text@.len(),
            out@ == text@.subrange(0, i as int),
        decreases n - i,
    {
        out.push(text.get_char(i));
        i = i + 1;
    }
    out
}

/// Read an unsigned decimal number that does not exceed `max`.
pub fn parse_unsigned(text: &str, max: u64) -> (r: Option<u64>)
    ensures
        (match r {
            Some(n) => Some(n as nat),
            None => None,
        }) == unsigned_value(text@, max as nat),
{
    let chars = chars_of(text);
    let start: usize = if chars.len() > 0 && chars[0] == '+' {
        1
    } else {
        0
    };
    let ghost digits = unsigned_digits(text@);
    assert(digits =~= chars@.subrange(start as int, chars@.len() as int));
    if start == chars.len() {
        return None;
    }
    let mut value: u64 = 0;
    let mut i: usize = start;
    while i < chars.len()
        invariant
            start <= i <= chars.len(),
            digits == chars@.subrange(start as int, chars@.len() as int),
            digits == unsigned_digits(text@),
            forall|j: int| 0 <= j < i - start ==> is_digit(#[trigger] digits[j]),
            value == digits_value(digits.subrange(0, i - start)),
            value <= max,
        decreases chars.len() - i,
    {
        let c: char = chars[i];
        assert(digits[i - start] == c);
        if c < '0' || c > '9' {
            return None;
        }
        let d: u64 = c as u64 - 48;
        assert(digits.subrange(0, i + 1 - start).drop_last() =~= digits.subrange(0, i - start));
        assert(digits.subrange(0, i + 1 - start).last() == c);
        let next: u128 = value as u128 * 10 + d as u128;
        if next > max as u128 {
            proof {
                if all_digits(digits) {
                    lemma_digits_value_grows(digits, i + 1 - start);
                }
            }
            return None;
        }
        value = next as u64;
        i = i + 1;
    }
    assert(digits.subrange(0, i - start) =~= digits);
    Some(value)
}

/// A number written in decimal reads back as itself.
pub proof fn decimal_reads_back(n: nat, max: nat)
    requires
        n <= max,
    ensures
        unsigned_value(decimal(n), max) == Some(n),
{
    lemma_decimal_digits(n);
}

pub(crate) proof fn lemma_decimal_digits(n: nat)
    ensures
        decimal(n).len() > 0,
        all_digits(decimal(n)),
        digits_value(decimal(n)) == n,
        unsigned_digits(decimal(n)) == decimal(n),
    decreases n,
{
    if n < 10 {
        assert(decimal(n).drop_last() =~= Seq::<char>::empty());
        assert(digits_value(decimal(n).drop_last()) == 0);
        assert(decimal(n).last() == digit(n));
    } else {
        lemma_decimal_digits(n / 10);
        assert(decimal(n).drop_last() =~= decimal(n / 10));
        assert(decimal(n)[0] == decimal(n / 10)[0]);
        assert(is_digit(decimal(n / 10)[0]));
    }
}

// ---------------------------------------------------------------------------------------------
// Words
// ---------------------------------------------------------------------------------------------

/// Whether two texts are the same.
pub fn same_text(a: &str, b: &str) -> (r: bool)
    ensures
        r == (a@ == b@),
{
    let a: String = a.to_owned();
    let b: String = b.to_owned();
    a == b
}

/// The white space of Unicode.
pub open spec fn is_white_space(c: char) -> bool {
    ||| '\u{9}' <= c <= '\u{d}'
    ||| c == ' '
    ||| c == '\u{85}'
    ||| c == '\u{a0}'
    ||| c == '\u{1680}'
    ||| '\u{2000}' <= c <= '\u{200a}'
    ||| c == '\u{2028}'
    ||| c == '\u{2029}'
    ||| c == '\u{202f}'
    ||| c == '\u{205f}'
    ||| c == '\u{3000}'
}

fn white_space(c: char) -> (r: bool)
    ensures
        r == is_white_space(c),
{
    ('\u{9}' <= c && c <= '\u{d}') || c == ' ' || c == '\u{85}' || c == '\u{a0}' || c == '\u{1680}'
        || ('\u{2000}' <= c && c <= '\u{200a}') || c == '\u{2028}' || c == '\u{2029}' || c
        == '\u{202f}' || c == '\u{205f}' || c == '\u{3000}'
}

pub open spec fn trimmed_front(s: Seq<char>) -> Seq<char>
    decreases s.len(),
{
    if s.len() > 0 && is_white_space(s[0]) {
        trimmed_front(s.drop_first())
    } else {
        s
    }
}

pub open spec fn trimmed_back(s: Seq<char>) -> Seq<char>
    decreases s.len(),
{
    if s.len() > 0 && is_white_space(s.last()) {
        trimmed_back(s.drop_last())
    } else {
        s
    }
}

/// A text without the white space around it.
pub open spec fn trimmed(s: Seq<char>) -> Seq<char> {
    trimmed_back(trimmed_front(s))
}

/// Cut the white space off both ends.
pub fn trim<'a>(text: &'a str) -> (r: &'a str)
    ensures
        r@ == trimmed(text@),
{
    let chars = chars_of(text);
    let n: usize = chars.len();
    let mut from: usize = 0;
    assert(text@.subrange(0, n as int) =~= text@);
    while from < n && white_space(chars[from])
        invariant
            from <= n,
            n == chars@.len(),
            chars@ == text@,
            trimmed_front(text@) == trimmed_front(text@.subrange(from as int, n as int)),
        decreases n - from,
    {
        assert(text@.subrange(from as int, n as int).drop_first() =~= text@.subrange(
            from + 1,
            n as int,
        ));
        from = from + 1;
    }
    assert(trimmed_front(text@) == text@.subrange(from as int, n as int));
    let mut to: usize = n;
    while to > from && white_space(chars[to - 1])
        invariant
            from <= to <= n,
            n == chars@.len(),
            chars@ == text@,
            trimmed_back(text@.subrange(from as int, n as int)) == trimmed_back(
                text@.subrange(from as int, to as int),
            ),
        decreases to,
    {
        assert(text@.subrange(from as int, to as int).drop_last() =~= text@.subrange(
            from as int,
            to - 1,
        ));
        to = to - 1;
    }
    text.substring_char(from, to)
}

/// A text that neither starts nor ends with white space is left as it is.
pub proof fn trimmed_leaves_words(s: Seq<char>)
    requires
        s.len() == 0 || (!is_white_space(s[0]) && !is_white_space(s.last())),
    ensures
        trimmed(s) == s,
{
}

/// Lower case of one character, for the ASCII letters only.
pub open spec fn ascii_lower_char(c: char) -> char {
    if 'A' <= c <= 'Z' {
        (c as u32 + 32) as char
    } else {
        c
    }
}

/// A text with its ASCII letters in lower case and everything else unchanged.
pub open spec fn ascii_lower(s: Seq<char>) -> Seq<char> {
    s.map_values(|c: char| ascii_lower_char(c))
}

/// Put the ASCII letters of a text into lower case.
pub fn to_ascii_lower(text: &str) -> (r: String)
    ensures
        r@ == ascii_lower(text@),
{
    let chars = chars_of(text);
    let mut out = String::new();
    let mut i: usize = 0;
    while i < chars.len()
        invariant
            i <= chars.len(),
            chars@ == text@,
            out@ == ascii_lower(text@.subrange(0, i as int)),
        decreases chars.len() - i,
    {
        let c: char = chars[i];
        let low: char = if 'A' <= c && c <= 'Z' {
            (c as u8 + 32u8) as char
        } else {
            c
        };
        assert(ascii_lower(text@.subrange(0, i + 1)) =~= ascii_lower(
            text@.subrange(0, i as int),
        ).push(ascii_lower_char(c)));
        out.push(low);
        i = i + 1;
    }
    assert(text@.subrange(0, i as int) =~= text@);
    out
}

/// What `str::to_lowercase` makes of a text that is not ASCII: the lower case of the Unicode tables.
pub uninterp spec fn unicode_lower(s: Seq<char>) -> Seq<char>;

/// A text in lower case.
pub open spec fn lower(s: Seq<char>) -> Seq<char> {
    if vstd::utf8::is_ascii_chars(s) {
        ascii_lower(s)
    } else {
        unicode_lower(s)
    }
}

/// `str::to_lowercase`: on a text of ASCII characters it changes the ASCII letters and nothing
/// else; on any other text it gives the lower case of the Unicode tables, which is a function of
/// the text alone.
#[verifier::external_body]
pub(crate) fn to_lowercase(text: &str) -> (r: String)
    ensures
        vstd::utf8::is_ascii_chars(text@) ==> r@ == ascii_lower(text@),
        !vstd::utf8::is_ascii_chars(text@) ==> r@ == unicode_lower(text@),
{
    text.to_lowercase()
}

// ---------------------------------------------------------------------------------------------
// Lists of words
// ---------------------------------------------------------------------------------------------

/// The contents of a list of texts.
pub open spec fn texts(list: Seq<String>) -> Seq<Seq<char>> {
    list.map_values(|s: String| s@)
}

/// The pieces of a text between separators. A text without a separator is one piece.
pub open spec fn split(s: Seq<char>, separators: Seq<char>) -> Seq<Seq<char>>
    decreases s.len(),
{
    if s.len() == 0 {
        seq![Seq::<char>::empty()]
    } else {
        let before = split(s.drop_last(), separators);
        if separators.contains(s.last()) {
            before.push(Seq::<char>::empty())
        } else {
            before.drop_last().push(before.last().push(s.last()))
        }
    }
}

fn is_one_of(c: char, separators: &Vec<char>) -> (r: bool)
    ensures
        r == separators@.contains(c),
{
    let mut i: usize = 0;
    while i < separators.len()
        invariant
            i <= separators.len(),
            forall|j: int| 0 <= j < i ==> separators@[j] != c,
        decreases separators.len() - i,
    {
        if separators[i] == c {
            return true;
        }
        i = i + 1;
    }
    false
}

/// Cut a text at every one of the separators.
pub fn split_text(text: &str, separators: &str) -> (out: Vec<String>)
    ensures
        texts(out@) == split(text@, separators@),
{
    let chars = chars_of(text);
    let separators_list = chars_of(separators);
    let mut out: Vec<String> = Vec::new();
    let mut piece = String::new();
    let mut i: usize = 0;
    while i < chars.len()
        invariant
            i <= chars.len(),
            chars@ == text@,
            separators_list@ == separators@,
            texts(out@).push(piece@) == split(text@.subrange(0, i as int), separators@),
        decreases chars.len() - i,
    {
        let c: char = chars[i];
        let ghost before = texts(out@);
        let ghost so_far = piece@;
        assert(text@.subrange(0, i + 1).drop_last() =~= text@.subrange(0, i as int));
        assert(text@.subrange(0, i + 1).last() == c);
        if is_one_of(c, &separators_list) {
            out.push(piece);
            assert(texts(out@) =~= before.push(so_far));
            piece = String::new();
        } else {
            assert(before.push(so_far).drop_last() =~= before);
            piece.push(c);
        }
        i = i + 1;
    }
    assert(text@.subrange(0, i as int) =~= text@);
    let ghost before = texts(out@);
    let ghost so_far = piece@;
    out.push(piece);
    assert(texts(out@) =~= before.push(so_far));
    out
}

/// A text without separators behind a separator is one more piece.
pub proof fn split_at_the_last_separator(
    front: Seq<char>,
    separator: char,
    back: Seq<char>,
    separators: Seq<char>,
)
    requires
        separators.contains(separator),
        forall|i: int| 0 <= i < back.len() ==> !separators.contains(#[trigger] back[i]),
    ensures
        split(front.push(separator) + back, separators) == split(front, separators).push(back),
    decreases back.len(),
{
    let whole = front.push(separator) + back;
    if back.len() == 0 {
        assert(whole =~= front.push(separator));
        assert(whole.drop_last() =~= front);
        assert(back =~= Seq::<char>::empty());
    } else {
        let shorter = back.drop_last();
        assert forall|i: int| 0 <= i < shorter.len() implies !separators.contains(
            #[trigger] shorter[i],
        ) by {
            assert(shorter[i] == back[i]);
        }
        split_at_the_last_separator(front, separator, shorter, separators);
        assert(whole.drop_last() =~= front.push(separator) + shorter);
        assert(whole.last() == back.last());
        assert(!separators.contains(back[back.len() - 1]));
        assert(split(front, separators).push(shorter).drop_last() =~= split(front, separators));
        assert(shorter.push(back.last()) =~= back);
    }
}

/// A text without separators is one piece.
pub proof fn split_of_one_word(s: Seq<char>, separators: Seq<char>)
    requires
        forall|i: int| 0 <= i < s.len() ==> !separators.contains(#[trigger] s[i]),
    ensures
        split(s, separators) == seq![s],
    decreases s.len(),
{
    if s.len() == 0 {
        assert(s =~= Seq::<char>::empty());
    } else {
        let shorter = s.drop_last();
        assert forall|i: int| 0 <= i < shorter.len() implies !separators.contains(
            #[trigger] shorter[i],
        ) by {
            assert(shorter[i] == s[i]);
        }
        split_of_one_word(shorter, separators);
        assert(!separators.contains(s[s.len() - 1]));
        assert(seq![shorter].drop_last() =~= Seq::<Seq<char>>::empty());
        assert(shorter.push(s.last()) =~= s);
    }
}

/// Splitting gives at least one piece.
pub proof fn split_is_not_empty(s: Seq<char>, separators: Seq<char>)
    ensures
        split(s, separators).len() > 0,
    decreases s.len(),
{
    if s.len() > 0 {
        split_is_not_empty(s.drop_last(), separators);
    }
}

/// The words of a text: the runs of characters that are no white space.
pub open spec fn words(s: Seq<char>) -> Seq<Seq<char>>
    decreases s.len(),
{
    if s.len() == 0 {
        Seq::empty()
    } else {
        let before = words(s.drop_last());
        if is_white_space(s.last()) {
            before
        } else if s.len() == 1 || is_white_space(s[s.len() - 2]) {
            before.push(seq![s.last()])
        } else {
            before.drop_last().push(before.last().push(s.last()))
        }
    }
}

/// The words of a text, as a list.
pub fn words_of(text: &str) -> (out: Vec<String>)
    ensures
        texts(out@) == words(text@),
{
    let chars = chars_of(text);
    let mut out: Vec<String> = Vec::new();
    let mut word = String::new();
    let mut inside: bool = false;
    let mut i: usize = 0;
    assert(texts(out@) =~= Seq::<Seq<char>>::empty());
    while i < chars.len()
        invariant
            i <= chars.len(),
            chars@ == text@,
            inside == (i > 0 && !is_white_space(text@[i - 1])),
            words(text@.subrange(0, i as int)) == (if inside {
                texts(out@).push(word@)
            } else {
                texts(out@)
            }),
            !inside ==> word@.len() == 0,
        decreases chars.len() - i,
    {
        let c: char = chars[i];
        let ghost now = text@.subrange(0, i + 1);
        let ghost before = texts(out@);
        let ghost so_far = word@;
        assert(now.drop_last() =~= text@.subrange(0, i as int));
        assert(now.last() == c);
        if white_space(c) {
            if inside {
                out.push(word);
                assert(texts(out@) =~= before.push(so_far));
                word = String::new();
            }
            inside = false;
        } else {
            assert(before.push(so_far).drop_last() =~= before);
            if i > 0 {
                assert(now[now.len() - 2] == text@[i - 1]);
            }
            word.push(c);
            if !inside {
                assert(word@ =~= seq![c]);
            }
            inside = true;
        }
        i = i + 1;
    }
    assert(text@.subrange(0, i as int) =~= text@);
    if inside {
        let ghost before = texts(out@);
        let ghost so_far = word@;
        out.push(word);
        assert(texts(out@) =~= before.push(so_far));
    }
    out
}

/// Where a character stands last in a text.
pub open spec fn last_place(s: Seq<char>, c: char) -> Option<int>
    decreases s.len(),
{
    if s.len() == 0 {
        None
    } else if s.last() == c {
        Some(s.len() - 1)
    } else {
        last_place(s.drop_last(), c)
    }
}

/// Cut a text at the last place of a character.
pub fn split_at_last<'a>(text: &'a str, c: char) -> (r: Option<(&'a str, &'a str)>)
    ensures
        match last_place(text@, c) {
            Some(at) => r matches Some((front, back)) && front@ == text@.subrange(0, at) && back@
                == text@.subrange(at + 1, text@.len() as int),
            None => r is None,
        },
{
    let chars = chars_of(text);
    let n: usize = chars.len();
    let mut i: usize = n;
    assert(text@.subrange(0, n as int) =~= text@);
    while i > 0
        invariant
            i <= n,
            n == chars@.len(),
            chars@ == text@,
            last_place(text@, c) == last_place(text@.subrange(0, i as int), c),
        decreases i,
    {
        let ghost now = text@.subrange(0, i as int);
        assert(now.drop_last() =~= text@.subrange(0, i - 1));
        if chars[i - 1] == c {
            return Some((text.substring_char(0, i - 1), text.substring_char(i, n)));
        }
        i = i - 1;
    }
    None
}

/// Some texts with a separator between any two.
pub open spec fn joined(parts: Seq<Seq<char>>, separator: Seq<char>) -> Seq<char>
    decreases parts.len(),
{
    if parts.len() == 0 {
        Seq::empty()
    } else if parts.len() == 1 {
        parts[0]
    } else {
        joined(parts.drop_last(), separator) + separator + parts.last()
    }
}

/// Put a separator between any two of some texts.
pub fn join(parts: &Vec<String>, separator: &str) -> (r: String)
    ensures
        r@ == joined(texts(parts@), separator@),
{
    let ghost all = texts(parts@);
    let mut r = String::new();
    let mut i: usize = 0;
    assert(r@ =~= joined(all.subrange(0, 0), separator@));
    while i < parts.len()
        invariant
            all == texts(parts@),
            i <= parts.len(),
            r@ == joined(all.subrange(0, i as int), separator@),
        decreases parts.len() - i,
    {
        if i > 0 {
            r.append(separator);
        }
        r.append(parts[i].as_str());
        proof {
            let now = all.subrange(0, i + 1);
            assert(now.drop_last() =~= all.subrange(0, i as int));
            assert(now.last() == parts@[i as int]@);
            assert(r@ =~= joined(now, separator@));
        }
        i = i + 1;
    }
    assert(all.subrange(0, i as int) =~= all);
    r
}

/// Whether a text stands at a place in another.
pub open spec fn stands_at(text: Seq<char>, part: Seq<char>, at: int) -> bool {
    0 <= at && at + part.len() <= text.len() && text.subrange(at, at + part.len()) == part
}

/// Whether a text stands anywhere in another.
pub open spec fn holds(text: Seq<char>, part: Seq<char>) -> bool {
    exists|at: int| stands_at(text, part, at)
}

/// Whether a text stands anywhere in another.
pub fn contains(text: &str, part: &str) -> (r: bool)
    ensures
        r == holds(text@, part@),
{
    let chars = chars_of(text);
    let wanted = chars_of(part);
    let n: usize = chars.len();
    let k: usize = wanted.len();
    if k > n {
        return false;
    }
    let mut at: usize = 0;
    while at <= n - k
        invariant
            chars@ == text@,
            wanted@ == part@,
            chars@.len() == n,
            wanted@.len() == k,
            k <= n,
            at <= n - k + 1,
            forall|j: int| 0 <= j < at ==> !stands_at(text@, part@, j),
        decreases n - k + 1 - at,
    {
        let mut i: usize = 0;
        while i < k && chars[at + i] == wanted[i]
            invariant
                chars@ == text@,
            wanted@ == part@,
            chars@.len() == n,
                wanted@.len() == k,
                k <= n,
                at <= n - k,
                i <= k,
                forall|j: int| 0 <= j < i ==> chars@[at + j] == #[trigger] wanted@[j],
            decreases k - i,
        {
            i = i + 1;
        }
        if i == k {
            assert(text@.subrange(at as int, at + k) =~= part@);
            assert(stands_at(text@, part@, at as int));
            return true;
        }
        proof {
            if stands_at(text@, part@, at as int) {
                assert(text@.subrange(at as int, at + k)[i as int] == part@[i as int]);
            }
        }
        if at == n - k {
            return false;
        }
        at = at + 1;
    }
    false
}

/// Trimming takes white space off both ends and nothing else: what is left stands in the text, all
/// around it is white space, and it neither starts nor ends with any.
pub proof fn trimming_takes_white_space_only(s: Seq<char>) -> (at: int)
    ensures
        0 <= at,
        at + trimmed(s).len() <= s.len(),
        trimmed(s) == s.subrange(at, at + trimmed(s).len()),
        forall|i: int| 0 <= i < at ==> is_white_space(#[trigger] s[i]),
        forall|i: int|
            at + trimmed(s).len() <= i < s.len() ==> is_white_space(#[trigger] s[i]),
        trimmed(s).len() > 0 ==> !is_white_space(trimmed(s)[0]) && !is_white_space(
            trimmed(s).last(),
        ),
{
    let front = trimmed_front(s);
    lemma_trimmed_front(s);
    lemma_trimmed_back(front);
    let back = trimmed(s);
    let at = s.len() - front.len();
    assert(back =~= s.subrange(at, at + back.len())) by {
        assert(forall|i: int| 0 <= i < back.len() ==> back[i] == front[i]);
        assert(forall|i: int| 0 <= i < front.len() ==> front[i] == s[at + i]);
    }
    assert forall|i: int| at + back.len() <= i < s.len() implies is_white_space(
        #[trigger] s[i],
    ) by {
        assert(front[i - at] == s[i]);
    }
    if back.len() > 0 {
        assert(back[0] == front[0]);
    }
    at
}

proof fn lemma_trimmed_front(s: Seq<char>)
    ensures
        trimmed_front(s).len() <= s.len(),
        trimmed_front(s) == s.subrange(s.len() - trimmed_front(s).len(), s.len() as int),
        forall|i: int|
            0 <= i < s.len() - trimmed_front(s).len() ==> is_white_space(#[trigger] s[i]),
        trimmed_front(s).len() > 0 ==> !is_white_space(trimmed_front(s)[0]),
    decreases s.len(),
{
    if s.len() > 0 && is_white_space(s[0]) {
        let rest = s.drop_first();
        lemma_trimmed_front(rest);
        assert(trimmed_front(s) =~= s.subrange(
            s.len() - trimmed_front(s).len(),
            s.len() as int,
        ));
        assert forall|i: int| 0 <= i < s.len() - trimmed_front(s).len() implies is_white_space(
            #[trigger] s[i],
        ) by {
            if i > 0 {
                assert(s[i] == rest[i - 1]);
            }
        }
    } else {
        assert(s =~= s.subrange(0, s.len() as int));
    }
}

proof fn lemma_trimmed_back(s: Seq<char>)
    ensures
        trimmed_back(s).len() <= s.len(),
        trimmed_back(s) == s.subrange(0, trimmed_back(s).len() as int),
        forall|i: int| trimmed_back(s).len() <= i < s.len() ==> is_white_space(#[trigger] s[i]),
        trimmed_back(s).len() > 0 ==> !is_white_space(trimmed_back(s).last()),
    decreases s.len(),
{
    if s.len() > 0 && is_white_space(s.last()) {
        let rest = s.drop_last();
        lemma_trimmed_back(rest);
        assert(trimmed_back(s) =~= s.subrange(0, trimmed_back(s).len() as int));
        assert forall|i: int| trimmed_back(s).len() <= i < s.len() implies is_white_space(
            #[trigger] s[i],
        ) by {
            if i < rest.len() {
                assert(s[i] == rest[i]);
            }
        }
    } else {
        assert(s =~= s.subrange(0, s.len() as int));
    }
}

/// The last place of a character is one where it stands, and none comes after it. Where there is no
/// such place, the character does not occur.
pub proof fn the_last_place_is_the_last(s: Seq<char>, c: char, i: int)
    requires
        0 <= i < s.len(),
    ensures
        last_place(s, c) matches Some(at) ==> 0 <= at < s.len() && s[at] == c && (at < i ==> s[i]
            != c),
        last_place(s, c) is None ==> s[i] != c,
    decreases s.len(),
{
    if s.last() != c {
        let rest = s.drop_last();
        if rest.len() > 0 {
            let k = if i < rest.len() {
                i
            } else {
                0
            };
            the_last_place_is_the_last(rest, c, k);
        }
    }
}

/// What was split at one separator is joined again by it.
pub proof fn split_pieces_join_again(s: Seq<char>, separator: char)
    ensures
        joined(split(s, seq![separator]), seq![separator]) == s,
    decreases s.len(),
{
    let by = seq![separator];
    if s.len() == 0 {
        assert(joined(split(s, by), by) =~= s);
    } else {
        let rest = s.drop_last();
        split_pieces_join_again(rest, separator);
        split_is_not_empty(rest, by);
        let before = split(rest, by);
        assert(s =~= rest.push(s.last()));
        if s.last() == separator {
            assert(by.contains(s.last())) by {
                assert(by[0] == s.last());
            }
            let all = before.push(Seq::<char>::empty());
            assert(all.drop_last() =~= before);
            assert(joined(all, by) =~= joined(before, by) + by + Seq::<char>::empty());
        } else {
            assert(!by.contains(s.last()));
            let all = before.drop_last().push(before.last().push(s.last()));
            if before.len() == 1 {
                assert(all[0] == before[0].push(s.last()));
                assert(joined(all, by) =~= joined(before, by).push(s.last()));
            } else {
                assert(all.drop_last() =~= before.drop_last());
                assert(joined(all, by) =~= joined(before, by).push(s.last()));
            }
        }
    }
}

/// A piece holds no separator.
pub proof fn a_piece_holds_no_separator(s: Seq<char>, separators: Seq<char>, i: int, j: int)
    requires
        0 <= i < split(s, separators).len(),
        0 <= j < split(s, separators)[i].len(),
    ensures
        !separators.contains(split(s, separators)[i][j]),
    decreases s.len(),
{
    if s.len() > 0 {
        let rest = s.drop_last();
        let before = split(rest, separators);
        split_is_not_empty(rest, separators);
        if separators.contains(s.last()) {
            if i < before.len() {
                a_piece_holds_no_separator(rest, separators, i, j);
            }
        } else if i < before.len() - 1 {
            a_piece_holds_no_separator(rest, separators, i, j);
        } else if j < before.last().len() {
            a_piece_holds_no_separator(rest, separators, i, j);
        }
    }
}

/// A word is not empty and holds no white space.
pub proof fn a_word_holds_no_white_space(s: Seq<char>, i: int)
    requires
        0 <= i < words(s).len(),
    ensures
        words(s)[i].len() > 0,
        forall|j: int| 0 <= j < words(s)[i].len() ==> !is_white_space(#[trigger] words(s)[i][j]),
    decreases s.len(),
{
    if s.len() > 0 {
        let rest = s.drop_last();
        let before = words(rest);
        if is_white_space(s.last()) {
            a_word_holds_no_white_space(rest, i);
        } else if s.len() == 1 || is_white_space(s[s.len() - 2]) {
            if i < before.len() {
                a_word_holds_no_white_space(rest, i);
            }
        } else {
            lemma_a_word_is_open(rest);
            if i < before.len() - 1 {
                a_word_holds_no_white_space(rest, i);
            } else {
                a_word_holds_no_white_space(rest, before.len() - 1);
            }
        }
    }
}

proof fn lemma_a_word_is_open(s: Seq<char>)
    requires
        s.len() > 0,
        !is_white_space(s.last()),
    ensures
        words(s).len() > 0,
    decreases s.len(),
{
    if s.len() > 1 && !is_white_space(s[s.len() - 2]) {
        lemma_a_word_is_open(s.drop_last());
    }
}

/// Putting a line into words loses no character but the white space, and keeps their order.
pub proof fn words_lose_only_white_space(s: Seq<char>)
    ensures
        joined(words(s), Seq::empty()) == s.filter(|c: char| !is_white_space(c)),
    decreases s.len(),
{
    let keep = |c: char| !is_white_space(c);
    reveal(Seq::filter);
    if s.len() == 0 {
        assert(joined(words(s), Seq::empty()) =~= s.filter(keep));
    } else {
        let rest = s.drop_last();
        words_lose_only_white_space(rest);
        let before = words(rest);
        let none = Seq::<char>::empty();
        if is_white_space(s.last()) {
            assert(s.filter(keep) == rest.filter(keep));
        } else {
            assert(s.filter(keep) == rest.filter(keep).push(s.last()));
            if s.len() == 1 || is_white_space(s[s.len() - 2]) {
                let all = before.push(seq![s.last()]);
                assert(all.drop_last() =~= before);
                assert(joined(all, none) =~= joined(before, none).push(s.last()));
            } else {
                lemma_a_word_is_open(rest);
                let all = before.drop_last().push(before.last().push(s.last()));
                assert(all.drop_last() =~= before.drop_last());
                assert(joined(all, none) =~= joined(before, none).push(s.last()));
            }
        }
    }
}

/// One more digit is ten times the number and that digit; a leading zero and a plus sign change
/// nothing, and what holds anything but digits is no number.
pub proof fn digits_are_read_in_tens(s: Seq<char>, d: nat, max: nat)
    requires
        d < 10,
        s.len() > 0,
        all_digits(s),
    ensures
        10 * digits_value(s) + d <= max ==> unsigned_value(s.push(digit(d)), max) == Some(
            10 * digits_value(s) + d,
        ),
        10 * digits_value(s) + d > max ==> unsigned_value(s.push(digit(d)), max) is None,
        unsigned_value(seq!['+'] + s, max) == unsigned_value(s, max),
        unsigned_value(seq!['0'] + s, max) == unsigned_value(s, max),
        unsigned_value(Seq::<char>::empty(), max) is None,
{
    let longer = s.push(digit(d));
    assert(longer.drop_last() =~= s);
    assert(s[0] != '+');
    assert(all_digits(longer));
    let signed = seq!['+'] + s;
    assert(signed.drop_first() =~= s);
    let padded = seq!['0'] + s;
    lemma_leading_zero(s);
    assert(all_digits(padded)) by {
        assert forall|k: int| 0 <= k < padded.len() implies is_digit(#[trigger] padded[k]) by {
            if k > 0 {
                assert(padded[k] == s[k - 1]);
            }
        }
    }
}

proof fn lemma_leading_zero(s: Seq<char>)
    ensures
        digits_value(seq!['0'] + s) == digits_value(s),
    decreases s.len(),
{
    let padded = seq!['0'] + s;
    if s.len() == 0 {
        assert(padded =~= seq!['0']);
        assert(padded.drop_last() =~= Seq::<char>::empty());
        assert(digits_value(padded.drop_last()) == 0);
    } else {
        assert(padded.drop_last() =~= seq!['0'] + s.drop_last());
        lemma_leading_zero(s.drop_last());
    }
}

/// A text with anything but digits behind an optional plus sign is no number.
pub proof fn other_characters_make_no_number(s: Seq<char>, max: nat, i: int)
    requires
        0 <= i < s.len(),
        !is_digit(s[i]),
        i > 0 || s[0] != '+',
    ensures
        unsigned_value(s, max) is None,
{
    let digits = unsigned_digits(s);
    if s[0] == '+' {
        assert(digits[i - 1] == s[i]);
    }
}

/// Lower case moves the capital letters of ASCII and nothing else, and doing it twice is doing it
/// once.
pub proof fn lower_case_moves_capitals_only(s: Seq<char>, i: int)
    requires
        0 <= i < s.len(),
    ensures
        ascii_lower(s).len() == s.len(),
        !('A' <= s[i] <= 'Z') ==> ascii_lower(s)[i] == s[i],
        'A' <= s[i] <= 'Z' ==> ascii_lower(s)[i] as int == s[i] as int + 32,
        !('A' <= ascii_lower(s)[i] <= 'Z'),
        ascii_lower(ascii_lower(s))[i] == ascii_lower(s)[i],
{
}

/// What is put between two texts stands in the whole.
pub proof fn what_is_put_between_stands_there(front: Seq<char>, part: Seq<char>, back: Seq<char>)
    ensures
        holds(front + part + back, part),
{
    assert((front + part + back).subrange(front.len() as int, (front.len() + part.len()) as int)
        =~= part);
    assert(stands_at(front + part + back, part, front.len() as int));
}

/// A text holds what a part of it holds.
pub proof fn a_text_holds_what_its_part_holds(
    front: Seq<char>,
    part: Seq<char>,
    back: Seq<char>,
    inner: Seq<char>,
)
    requires
        holds(part, inner),
    ensures
        holds(front + part + back, inner),
{
    let at = choose|at: int| stands_at(part, inner, at);
    let whole = front + part + back;
    let from = front.len() + at;
    assert(whole.subrange(from, from + inner.len()) =~= part.subrange(at, at + inner.len()));
    assert(stands_at(whole, inner, from));
}

} // verus!
