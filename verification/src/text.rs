//! Text rules shared by configuration, requests and stored rows.
//!
//! Every identifier that reaches storage is bounded in bytes, holds no control
//! character and is not blank. Revisions and cursors travel as decimal text.
use vstd::prelude::*;
use vstd::string::*;
use vstd::utf8::*;

verus! {

/// The longest accepted identifier, in bytes of UTF-8.
pub const MAX_ID_BYTES: usize = 512;

/// The longest accepted title or legal authority, in bytes of UTF-8.
pub const MAX_SHORT_TEXT_BYTES: usize = 1_000;

/// The longest accepted reason, in bytes of UTF-8.
pub const MAX_REASON_BYTES: usize = 20_000;

/// The longest accepted idempotency key, in bytes of UTF-8.
pub const MAX_IDEMPOTENCY_BYTES: usize = 200;

/// The longest accepted scope kind, in bytes of UTF-8.
pub const MAX_SCOPE_KIND_BYTES: usize = 128;

/// The longest accepted configured identifier, in bytes of UTF-8.
pub const MAX_IDENTIFIER_BYTES: usize = 256;

/// The text that a string holds, as its characters.
pub type Text = Seq<char>;

/// The text in an optional string.
pub open spec fn optional_text(text: Option<String>) -> Option<Text> {
    match text {
        Some(text) => Some(text@),
        None => None,
    }
}

/// The texts that a list of strings holds.
pub open spec fn texts(strings: Seq<String>) -> Seq<Text> {
    Seq::new(strings.len(), |i: int| strings[i]@)
}

/// The texts that a list of optional strings holds.
pub open spec fn optional_texts(strings: Seq<Option<String>>) -> Seq<Option<Text>> {
    Seq::new(strings.len(), |i: int| optional_text(strings[i]))
}

/// A character of the Unicode general category `Cc`.
pub open spec fn is_control(c: char) -> bool {
    c as u32 <= 0x1f || 0x7f <= c as u32 <= 0x9f
}

/// A character with the Unicode property `White_Space`.
pub open spec fn is_white_space(c: char) -> bool {
    let code = c as u32;
    ||| 0x09 <= code <= 0x0d
    ||| code == 0x20
    ||| code == 0x85
    ||| code == 0xa0
    ||| code == 0x1680
    ||| 0x2000 <= code <= 0x200a
    ||| code == 0x2028
    ||| code == 0x2029
    ||| code == 0x202f
    ||| code == 0x205f
    ||| code == 0x3000
}

/// Text with nothing left once surrounding white space is trimmed.
pub open spec fn is_blank(text: Text) -> bool {
    forall|i: int| 0 <= i < text.len() ==> is_white_space(#[trigger] text[i])
}

/// Text of at most `max_bytes` bytes, without control characters, and not
/// blank unless `allow_empty` says otherwise.
pub open spec fn text_is_valid(text: Text, max_bytes: nat, allow_empty: bool) -> bool {
    &&& encode_utf8(text).len() <= max_bytes
    &&& allow_empty || !is_blank(text)
    &&& forall|i: int| 0 <= i < text.len() ==> !is_control(#[trigger] text[i])
}

/// A valid resource or subject identifier.
pub open spec fn id_is_valid(text: Text) -> bool {
    text_is_valid(text, MAX_ID_BYTES as nat, false)
}

/// A valid idempotency key.
pub open spec fn idempotency_key_is_valid(text: Text) -> bool {
    text_is_valid(text, MAX_IDEMPOTENCY_BYTES as nat, false)
}

/// Valid text without any white space in it.
pub open spec fn identifier_is_valid(text: Text, max_bytes: nat) -> bool {
    &&& text_is_valid(text, max_bytes, false)
    &&& forall|i: int| 0 <= i < text.len() ==> !is_white_space(#[trigger] text[i])
}

/// The characters of a string, in order.
pub fn chars_of(value: &str) -> (chars: Vec<char>)
    ensures
        chars@ == value@,
{
    let mut chars: Vec<char> = Vec::new();
    for c in it: value.chars()
        invariant
            it.seq() == value@,
            chars@ == value@.take(it.index()),
    {
        chars.push(c);
    }
    chars
}

fn control(c: char) -> (answer: bool)
    ensures
        answer == is_control(c),
{
    let code: u32 = c as u32;
    code <= 0x1f || (0x7f <= code && code <= 0x9f)
}

fn white_space(c: char) -> (answer: bool)
    ensures
        answer == is_white_space(c),
{
    let code: u32 = c as u32;
    (0x09 <= code && code <= 0x0d) || code == 0x20 || code == 0x85 || code == 0xa0 || code == 0x1680
        || (0x2000 <= code && code <= 0x200a) || code == 0x2028 || code == 0x2029 || code == 0x202f
        || code == 0x205f || code == 0x3000
}

/// Whether the text fits in `max_bytes`, holds no control character and, unless
/// `allow_empty`, is not blank.
pub fn valid_text(value: &str, max_bytes: usize, allow_empty: bool) -> (answer: bool)
    ensures
        answer == text_is_valid(value@, max_bytes as nat, allow_empty),
{
    if value.as_bytes().len() > max_bytes {
        return false;
    }
    let chars = chars_of(value);
    let mut blank: bool = true;
    let mut i: usize = 0;
    while i < chars.len()
        invariant
            chars@ == value@,
            i <= chars.len(),
            encode_utf8(value@).len() <= max_bytes,
            blank == is_blank(value@.take(i as int)),
            forall|j: int| 0 <= j < i ==> !is_control(#[trigger] value@[j]),
        decreases chars.len() - i,
    {
        if control(chars[i]) {
            assert(is_control(value@[i as int]));
            return false;
        }
        let spacing = white_space(chars[i]);
        proof {
            let before = value@.take(i as int);
            let after = value@.take(i + 1);
            assert(after == before.push(value@[i as int]));
            assert(is_blank(after) == (is_blank(before) && is_white_space(value@[i as int]))) by {
                assert(after[i as int] == value@[i as int]);
                assert(forall|j: int| 0 <= j < before.len() ==> before[j] == #[trigger] after[j]);
                if is_blank(after) {
                    assert forall|j: int| 0 <= j < before.len() implies is_white_space(
                        #[trigger] before[j],
                    ) by {
                        assert(after[j] == before[j]);
                    }
                }
            }
        }
        blank = blank && spacing;
        i += 1;
    }
    assert(value@.take(i as int) == value@);
    allow_empty || !blank
}

/// Whether the text is a valid resource or subject identifier.
pub fn valid_id(value: &str) -> (answer: bool)
    ensures
        answer == id_is_valid(value@),
{
    valid_text(value, MAX_ID_BYTES, false)
}

/// Whether the text is a valid idempotency key.
pub fn valid_idempotency_key(value: &str) -> (answer: bool)
    ensures
        answer == idempotency_key_is_valid(value@),
{
    valid_text(value, MAX_IDEMPOTENCY_BYTES, false)
}

/// Whether the text is valid and holds no white space.
pub fn valid_identifier(value: &str, max_bytes: usize) -> (answer: bool)
    ensures
        answer == identifier_is_valid(value@, max_bytes as nat),
{
    if !valid_text(value, max_bytes, false) {
        return false;
    }
    let chars = chars_of(value);
    let mut i: usize = 0;
    while i < chars.len()
        invariant
            chars@ == value@,
            i <= chars.len(),
            forall|j: int| 0 <= j < i ==> !is_white_space(#[trigger] value@[j]),
        decreases chars.len() - i,
    {
        if white_space(chars[i]) {
            assert(is_white_space(value@[i as int]));
            return false;
        }
        i += 1;
    }
    true
}

/// One of the ten ASCII digits.
pub open spec fn is_digit(c: char) -> bool {
    '0' as u32 <= c as u32 <= '9' as u32
}

/// Text made of ASCII digits alone.
pub open spec fn all_digits(text: Text) -> bool {
    forall|i: int| 0 <= i < text.len() ==> is_digit(#[trigger] text[i])
}

/// The number that a run of decimal digits denotes.
pub open spec fn digits_value(digits: Text) -> nat
    decreases digits.len(),
{
    if digits.len() == 0 {
        0
    } else {
        (10 * digits_value(digits.drop_last()) + (digits.last() as u32 - '0' as u32)) as nat
    }
}

/// The signed 64-bit integer that decimal text denotes: an optional sign, then
/// at least one digit and nothing else.
pub open spec fn parsed_integer(text: Text) -> Option<int> {
    let negative = text.len() > 0 && text[0] == '-';
    let signed = text.len() > 0 && (text[0] == '-' || text[0] == '+');
    let digits = if signed {
        text.skip(1)
    } else {
        text
    };
    let magnitude = digits_value(digits) as int;
    let value = if negative {
        -magnitude
    } else {
        magnitude
    };
    if digits.len() > 0 && all_digits(digits) && i64::MIN <= value <= i64::MAX {
        Some(value)
    } else {
        None
    }
}

/// A positive revision written in decimal.
pub open spec fn parsed_revision(text: Text) -> Option<int> {
    match parsed_integer(text) {
        Some(value) => if value > 0 {
            Some(value)
        } else {
            None
        },
        None => None,
    }
}

/// A non-negative activity cursor written in decimal.
pub open spec fn parsed_cursor(text: Text) -> Option<int> {
    match parsed_integer(text) {
        Some(value) => if value >= 0 {
            Some(value)
        } else {
            None
        },
        None => None,
    }
}

/// The bound past which a magnitude no longer matters.
const MAGNITUDE_LIMIT: i128 = 0x8000_0000_0000_0000;

/// Reads decimal text as a signed 64-bit integer.
pub fn parse_integer(value: &str) -> (parsed: Option<i64>)
    ensures
        parsed is Some == parsed_integer(value@) is Some,
        parsed matches Some(number) ==> parsed_integer(value@) == Some(number as int),
{
    let chars = chars_of(value);
    let negative = chars.len() > 0 && chars[0] == '-';
    let signed = chars.len() > 0 && (chars[0] == '-' || chars[0] == '+');
    let start: usize = if signed {
        1
    } else {
        0
    };
    let ghost digits = value@.skip(start as int);
    assert(value@.skip(0) == value@);
    if chars.len() == start {
        return None;
    }
    let mut magnitude: i128 = 0;
    let mut i: usize = start;
    while i < chars.len()
        invariant
            chars@ == value@,
            start <= i <= chars.len(),
            digits == value@.skip(start as int),
            start == (if value@.len() > 0 && (value@[0] == '-' || value@[0] == '+') {
                1int
            } else {
                0
            }),
            0 <= magnitude <= 10 * MAGNITUDE_LIMIT + 9,
            magnitude <= MAGNITUDE_LIMIT ==> magnitude == digits_value(digits.take(i - start)),
            magnitude > MAGNITUDE_LIMIT ==> digits_value(digits.take(i - start)) > MAGNITUDE_LIMIT,
            all_digits(digits.take(i - start)),
        decreases chars.len() - i,
    {
        let code: u32 = chars[i] as u32;
        let ghost before = digits.take(i - start);
        let ghost after = digits.take(i - start + 1);
        proof {
            assert(after.drop_last() == before);
            assert(after.last() == chars@[i as int]);
        }
        if code < 0x30 || code > 0x39 {
            proof {
                assert(value@.skip(0) == value@);
                assert(!is_digit(digits[i - start]));
            }
            return None;
        }
        if magnitude <= MAGNITUDE_LIMIT {
            magnitude = 10 * magnitude + (code - 0x30) as i128;
        }
        proof {
            assert forall|j: int| 0 <= j < after.len() implies is_digit(#[trigger] after[j]) by {
                if j < before.len() {
                    assert(before[j] == after[j]);
                }
            }
        }
        i += 1;
    }
    proof {
        assert(digits.take(i - start) == digits);
    }
    if negative {
        if magnitude <= MAGNITUDE_LIMIT {
            Some((-magnitude) as i64)
        } else {
            None
        }
    } else if magnitude < MAGNITUDE_LIMIT {
        Some(magnitude as i64)
    } else {
        None
    }
}

/// Reads a positive revision.
pub fn parse_revision(value: &str) -> (revision: Option<i64>)
    ensures
        revision is Some == parsed_revision(value@) is Some,
        revision matches Some(number) ==> parsed_revision(value@) == Some(number as int),
{
    match parse_integer(value) {
        Some(number) => if number > 0 {
            Some(number)
        } else {
            None
        },
        None => None,
    }
}

/// Reads a non-negative activity cursor.
pub fn parse_cursor(value: &str) -> (cursor: Option<i64>)
    ensures
        cursor is Some == parsed_cursor(value@) is Some,
        cursor matches Some(number) ==> parsed_cursor(value@) == Some(number as int),
{
    match parse_integer(value) {
        Some(number) => if number >= 0 {
            Some(number)
        } else {
            None
        },
        None => None,
    }
}

/// The ASCII digit for a number below ten.
pub open spec fn digit(n: nat) -> char {
    ('0' as u32 + n) as char
}

/// A natural number in decimal, without leading zeros.
pub open spec fn decimal_digits(n: nat) -> Text
    decreases n,
{
    if n < 10 {
        seq![digit(n)]
    } else {
        decimal_digits(n / 10).push(digit(n % 10))
    }
}

/// An integer in decimal, with a leading minus where it is negative.
pub open spec fn decimal(n: int) -> Text {
    if n < 0 {
        seq!['-'] + decimal_digits((-n) as nat)
    } else {
        decimal_digits(n as nat)
    }
}

fn digit_text(n: u64) -> (text: &'static str)
    requires
        n < 10,
    ensures
        text@ == seq![digit(n as nat)],
{
    proof {
        reveal_strlit("0");
        reveal_strlit("1");
        reveal_strlit("2");
        reveal_strlit("3");
        reveal_strlit("4");
        reveal_strlit("5");
        reveal_strlit("6");
        reveal_strlit("7");
        reveal_strlit("8");
        reveal_strlit("9");
    }
    match n {
        0 => "0",
        1 => "1",
        2 => "2",
        3 => "3",
        4 => "4",
        5 => "5",
        6 => "6",
        7 => "7",
        8 => "8",
        _ => "9",
    }
}

fn append_digits(text: &mut String, n: u64)
    ensures
        final(text)@ == old(text)@ + decimal_digits(n as nat),
    decreases n,
{
    if n >= 10 {
        append_digits(text, n / 10);
    }
    text.append(digit_text(n % 10));
    proof {
        let whole = decimal_digits(n as nat);
        if n >= 10 {
            assert(old(text)@ + whole == old(text)@ + decimal_digits(n as nat / 10) + seq![
                digit(n as nat % 10),
            ]);
        }
    }
}

/// Writes a signed 64-bit integer in decimal.
pub fn decimal_text(n: i64) -> (text: String)
    ensures
        text@ == decimal(n as int),
{
    let mut text = String::new();
    if n < 0 {
        proof {
            reveal_strlit("-");
        }
        text.append("-");
        let magnitude: u64 = (-(n as i128)) as u64;
        append_digits(&mut text, magnitude);
        assert(text@ == decimal(n as int));
    } else {
        append_digits(&mut text, n as u64);
        assert(text@ == decimal(n as int));
    }
    text
}

/// A copy of a string.
pub fn text_of(value: &str) -> (text: String)
    ensures
        text@ == value@,
{
    value.to_owned()
}

/// A copy of an optional string.
pub fn copy_optional(text: &Option<String>) -> (copy: Option<String>)
    ensures
        optional_text(copy) == optional_text(*text),
{
    match text {
        Some(text) => Some(text.clone()),
        None => None,
    }
}

proof fn lemma_digits_read_back(n: nat)
    ensures
        all_digits(decimal_digits(n)),
        digits_value(decimal_digits(n)) == n,
        decimal_digits(n).len() > 0,
    decreases n,
{
    if n < 10 {
        let text = decimal_digits(n);
        assert(text.drop_last() == Seq::<char>::empty());
        assert(digits_value(text.drop_last()) == 0);
    } else {
        lemma_digits_read_back(n / 10);
        let text = decimal_digits(n);
        assert(text.drop_last() == decimal_digits(n / 10));
        assert forall|i: int| 0 <= i < text.len() implies is_digit(#[trigger] text[i]) by {
            if i < text.len() - 1 {
                assert(text[i] == decimal_digits(n / 10)[i]);
            }
        }
    }
}

/// Reading back decimal text gives the number that was written, for every
/// signed 64-bit integer. A positive number reads back as a revision and one
/// that is not negative as a cursor.
pub proof fn decimal_reads_back(n: int)
    requires
        i64::MIN <= n <= i64::MAX,
    ensures
        parsed_integer(decimal(n)) == Some(n),
        n > 0 ==> parsed_revision(decimal(n)) == Some(n),
        n >= 0 ==> parsed_cursor(decimal(n)) == Some(n),
{
    let text = decimal(n);
    if n < 0 {
        lemma_digits_read_back((-n) as nat);
        assert(text.skip(1) == decimal_digits((-n) as nat));
    } else {
        lemma_digits_read_back(n as nat);
        assert(is_digit(text[0]));
    }
}

/// Different integers have different decimal text.
pub proof fn decimal_tells_integers_apart(left: int, right: int)
    requires
        decimal(left) == decimal(right),
    ensures
        left == right,
{
    let magnitude = |n: int| (if n < 0 { -n } else { n }) as nat;
    lemma_digits_read_back(magnitude(left));
    lemma_digits_read_back(magnitude(right));
    assert(is_digit(decimal_digits(magnitude(left))[0]));
    assert(is_digit(decimal_digits(magnitude(right))[0]));
    assert(left < 0 <==> decimal(left)[0] == '-');
    assert(right < 0 <==> decimal(right)[0] == '-');
    if left < 0 {
        assert(decimal(left).skip(1) == decimal_digits(magnitude(left)));
        assert(decimal(right).skip(1) == decimal_digits(magnitude(right)));
    }
}

/// Control characters are those below the space, and those from the delete to the end
/// of the second control block.
pub proof fn control_characters_are_known(c: char)
    ensures
        is_control(c) <==> c < ' ' || '\u{7f}' <= c <= '\u{9f}',
{
}

/// White space is the tab, the line breaks, the spaces of every width, and no other.
pub proof fn white_space_is_known(c: char)
    ensures
        is_white_space(c) <==> '\t' <= c <= '\r' || c == ' ' || c == '\u{85}' || c == '\u{a0}' || c
            == '\u{1680}' || '\u{2000}' <= c <= '\u{200a}' || '\u{2028}' <= c <= '\u{2029}' || c
            == '\u{202f}' || c == '\u{205f}' || c == '\u{3000}',
{
}

/// Text is within bounds exactly when its UTF-8 form is not too long, it has no control
/// character, and it has something other than white space in it or may be empty.
pub proof fn valid_text_is_short_printable_and_not_blank(
    text: Text,
    max_bytes: nat,
    allow_empty: bool,
)
    ensures
        text_is_valid(text, max_bytes, allow_empty) <==> {
            &&& encode_utf8(text).len() <= max_bytes
            &&& !(exists|i: int| 0 <= i < text.len() && is_control(#[trigger] text[i]))
            &&& !allow_empty ==> exists|i: int|
                0 <= i < text.len() && !is_white_space(#[trigger] text[i])
        },
{
}

/// A number is read digit by digit after an optional sign: one more digit makes it ten
/// times as large and adds the digit.
pub proof fn numbers_are_read_digit_by_digit(text: Text, c: char)
    ensures
        parsed_integer(Seq::<char>::empty()) is None,
        parsed_integer(seq!['-']) is None,
        parsed_integer(seq!['+']) is None,
        '0' <= c <= '9' ==> parsed_integer(seq![c]) == Some(c as int - '0' as int),
        parsed_integer(text) matches Some(n) ==> {
            let more = if text[0] == '-' {
                10 * n - (c as int - '0' as int)
            } else {
                10 * n + (c as int - '0' as int)
            };
            if '0' <= c <= '9' && i64::MIN <= more <= i64::MAX {
                parsed_integer(text.push(c)) == Some(more)
            } else {
                parsed_integer(text.push(c)) is None
            }
        },
{
    let digits = |text: Text|
        if text.len() > 0 && (text[0] == '-' || text[0] == '+') {
            text.skip(1)
        } else {
            text
        };
    assert(seq!['-'].skip(1) == Seq::<char>::empty());
    assert(seq!['+'].skip(1) == Seq::<char>::empty());
    if '0' <= c <= '9' {
        assert(seq![c].drop_last() == Seq::<char>::empty());
        assert(digits_value(seq![c].drop_last()) == 0);
        assert(digits_value(seq![c]) == c as int - '0' as int);
    }
    if parsed_integer(text) is Some {
        let more = text.push(c);
        assert(digits(more) == digits(text).push(c));
        assert(digits(more).drop_last() == digits(text));
        assert(digits(more).last() == c);
        assert(all_digits(digits(more)) <==> is_digit(c)) by {
            if is_digit(c) {
                assert forall|i: int| 0 <= i < digits(more).len() implies is_digit(
                    #[trigger] digits(more)[i],
                ) by {
                    if i < digits(text).len() {
                        assert(digits(more)[i] == digits(text)[i]);
                    }
                }
            } else {
                assert(digits(more)[digits(text).len() as int] == c);
            }
        }
    }
}

/// A revision is a number of at least one, and a cursor one of at least zero.
pub proof fn revisions_and_cursors_are_numbers(text: Text)
    ensures
        parsed_revision(text) matches Some(n) ==> n >= 1 && parsed_integer(text) == Some(n),
        parsed_cursor(text) matches Some(n) ==> n >= 0 && parsed_integer(text) == Some(n),
        parsed_integer(text) matches Some(n) ==> {
            &&& n >= 1 ==> parsed_revision(text) == Some(n)
            &&& n >= 0 ==> parsed_cursor(text) == Some(n)
        },
{
}

/// Decimal text has no leading zero, but for zero itself, and a sign only where the
/// number is negative.
pub proof fn decimal_text_is_shortest(n: int)
    ensures
        decimal(0) == seq!['0'],
        n > 0 ==> '1' <= decimal(n)[0] <= '9',
        n < 0 ==> decimal(n) == seq!['-'] + decimal(-n),
{
    if n > 0 {
        lemma_no_leading_zero(n as nat);
    }
}

proof fn lemma_no_leading_zero(n: nat)
    requires
        n > 0,
    ensures
        decimal_digits(n).len() > 0,
        '1' <= decimal_digits(n)[0] <= '9',
    decreases n,
{
    if n >= 10 {
        lemma_no_leading_zero(n / 10);
    }
}

} // verus!
