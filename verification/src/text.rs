//! Text handling for user input: blank detection, trimming, and the decimal
//! notation of task identifiers.

use vstd::prelude::*;
use vstd::std_specs::iter::IteratorSpec;
use vstd::string::StrSliceExecFns;
use vstd::string::StringExecFns;

verus! {

/// Whether `c` is whitespace: one of the twenty-five characters that Unicode
/// gives the property `White_Space`, which are the ones that
/// `char::is_whitespace` knows.
pub open spec fn is_white_space(c: char) -> bool {
    ||| '\u{9}' <= c <= '\u{d}'
    ||| c == ' '
    ||| c == '\u{85}'
    ||| c == '\u{a0}'
    ||| c == '\u{1680}'
    ||| '\u{2000}' <= c <= '\u{200a}'
    ||| c == '\u{2028}'
    ||| c == '\u{2029}'
    ||| c == '\u{202f}'
    ||| c == '\u{205f}'
    ||| c == '\u{3000}'
}

/// Tells whether `c` is whitespace.
pub fn is_whitespace(c: char) -> (b: bool)
    ensures
        b == is_white_space(c),
{
    ('\u{9}' <= c && c <= '\u{d}') || c == ' ' || c == '\u{85}' || c == '\u{a0}' || c
        == '\u{1680}' || ('\u{2000}' <= c && c <= '\u{200a}') || c == '\u{2028}' || c
        == '\u{2029}' || c == '\u{202f}' || c == '\u{205f}' || c == '\u{3000}'
}

/// Every character of `s` is whitespace. The empty text is blank.
pub open spec fn is_blank(s: Seq<char>) -> bool {
    forall|i: int| 0 <= i < s.len() ==> is_white_space(#[trigger] s[i])
}

/// The index of the first character of `s` at or after `from` that is not
/// whitespace, or `s.len()` if there is none.
pub open spec fn skip_blank(s: Seq<char>, from: int) -> int
    decreases s.len() - from,
{
    if 0 <= from < s.len() && is_white_space(s[from]) {
        skip_blank(s, from + 1)
    } else {
        from
    }
}

/// The index just past the last character of `s` before `upto` that is not
/// whitespace, or `0` if there is none.
pub open spec fn solid_end(s: Seq<char>, upto: int) -> int
    decreases upto,
{
    if 0 < upto <= s.len() && is_white_space(s[upto - 1]) {
        solid_end(s, upto - 1)
    } else {
        upto
    }
}

/// `s` without its leading and trailing whitespace.
pub open spec fn trimmed(s: Seq<char>) -> Seq<char> {
    let from = skip_blank(s, 0);
    let to = solid_end(s, s.len() as int);
    if from < to {
        s.subrange(from, to)
    } else {
        Seq::empty()
    }
}

/// `skip_blank` stops at `at` when everything from `from` up to `at` is
/// whitespace and `at` is the end of `s` or holds something else.
pub proof fn lemma_skip_blank(s: Seq<char>, from: int, at: int)
    requires
        0 <= from <= at <= s.len(),
        forall|i: int| from <= i < at ==> is_white_space(#[trigger] s[i]),
        at < s.len() ==> !is_white_space(s[at]),
    ensures
        skip_blank(s, from) == at,
    decreases at - from,
{
    if from < at {
        lemma_skip_blank(s, from + 1, at);
    }
}

/// `solid_end` stops at `at` when everything from `at` up to `upto` is
/// whitespace and `at` is `0` or follows something else.
pub proof fn lemma_solid_end(s: Seq<char>, at: int, upto: int)
    requires
        0 <= at <= upto <= s.len(),
        forall|i: int| at <= i < upto ==> is_white_space(#[trigger] s[i]),
        0 < at ==> !is_white_space(s[at - 1]),
    ensures
        solid_end(s, upto) == at,
    decreases upto - at,
{
    if at < upto {
        lemma_solid_end(s, at, upto - 1);
    }
}

/// Where `skip_blank` stops: everything before is whitespace, and what is
/// there, if anything, is not.
pub proof fn lemma_skip_blank_stops(s: Seq<char>, from: int)
    requires
        0 <= from <= s.len(),
    ensures
        from <= skip_blank(s, from) <= s.len(),
        forall|i: int| from <= i < skip_blank(s, from) ==> is_white_space(#[trigger] s[i]),
        skip_blank(s, from) < s.len() ==> !is_white_space(s[skip_blank(s, from)]),
    decreases s.len() - from,
{
    if from < s.len() && is_white_space(s[from]) {
        lemma_skip_blank_stops(s, from + 1);
    }
}

/// Where `solid_end` stops: everything after is whitespace, and what is just
/// before, if anything, is not.
pub proof fn lemma_solid_end_stops(s: Seq<char>, upto: int)
    requires
        0 <= upto <= s.len(),
    ensures
        0 <= solid_end(s, upto) <= upto,
        forall|i: int| solid_end(s, upto) <= i < upto ==> is_white_space(#[trigger] s[i]),
        0 < solid_end(s, upto) ==> !is_white_space(s[solid_end(s, upto) - 1]),
    decreases upto,
{
    if 0 < upto && is_white_space(s[upto - 1]) {
        lemma_solid_end_stops(s, upto - 1);
    }
}

/// Trimming leaves nothing exactly when the text is blank; otherwise what is
/// left is a stretch of the text that neither starts nor ends with whitespace,
/// with only whitespace cut off at either side.
pub proof fn lemma_trimmed(s: Seq<char>)
    ensures
        trimmed(s).len() == 0 <==> is_blank(s),
        trimmed(s).len() <= s.len(),
        trimmed(s).len() > 0 ==> !is_white_space(trimmed(s).first()) && !is_white_space(
            trimmed(s).last(),
        ),
        exists|from: int, to: int|
            0 <= from <= to <= s.len() && trimmed(s) == #[trigger] s.subrange(from, to)
                && is_blank(s.subrange(0, from)) && is_blank(s.subrange(to, s.len() as int)),
{
    let from = skip_blank(s, 0);
    let to = solid_end(s, s.len() as int);
    lemma_skip_blank_stops(s, 0);
    lemma_solid_end_stops(s, s.len() as int);
    if from >= to {
        // whatever stands at or after `to` is whitespace, so `from` is the end
        assert(trimmed(s) == s.subrange(from, from));
    }
    assert(is_blank(s.subrange(to, s.len() as int)));
}

/// Text that neither starts nor ends with whitespace is not blank, and
/// trimming leaves it as it is.
pub proof fn lemma_trimmed_solid(s: Seq<char>)
    requires
        s.len() > 0,
        !is_white_space(s.first()),
        !is_white_space(s.last()),
    ensures
        !is_blank(s),
        trimmed(s) == s,
{
    lemma_skip_blank(s, 0, 0);
    lemma_solid_end(s, s.len() as int, s.len() as int);
}

/// Trimming what is already trimmed changes nothing.
pub proof fn lemma_trimmed_idempotent(s: Seq<char>)
    ensures
        trimmed(trimmed(s)) == trimmed(s),
{
    lemma_trimmed(s);
    if trimmed(s).len() > 0 {
        lemma_trimmed_solid(trimmed(s));
    }
}

/// Removes leading and trailing whitespace, as `str::trim` does.
pub fn trim(s: &str) -> (r: &str)
    ensures
        r@ == trimmed(s@),
{
    let len: usize = s.unicode_len();
    let mut it = s.chars();
    let mut i: usize = 0;
    let mut found = false;
    let mut from: usize = 0;
    let mut to: usize = 0;
    loop
        invariant
            len == s@.len(),
            0 <= i <= len,
            it.remaining() == s@.subrange(i as int, len as int),
            !found ==> from == 0 && to == 0 && forall|j: int|
                0 <= j < i ==> is_white_space(#[trigger] s@[j]),
            found ==> from < to <= i && skip_blank(s@, 0) == from && !is_white_space(s@[to - 1])
                && forall|j: int| to <= j < i ==> is_white_space(#[trigger] s@[j]),
        ensures
            i == len,
        decreases len - i,
    {
        match it.next() {
            Some(c) => {
                if !is_whitespace(c) {
                    if !found {
                        proof {
                            lemma_skip_blank(s@, 0, i as int);
                        }
                        found = true;
                        from = i;
                    }
                    to = i + 1;
                }
                i = i + 1;
            },
            None => {
                break ;
            },
        }
    }
    proof {
        if found {
            lemma_solid_end(s@, to as int, len as int);
        } else {
            lemma_skip_blank(s@, 0, len as int);
            lemma_solid_end(s@, 0, len as int);
        }
    }
    s.substring_char(from, to)
}

/// Whether `c` is one of the ten ASCII digits.
pub open spec fn is_digit(c: char) -> bool {
    '0' <= c <= '9'
}

/// The number a digit stands for; `0` for any other character.
pub open spec fn digit_value(c: char) -> nat {
    if is_digit(c) {
        (c as int - '0' as int) as nat
    } else {
        0
    }
}

/// Every character of `s` is an ASCII digit.
pub open spec fn all_digits(s: Seq<char>) -> bool {
    forall|i: int| 0 <= i < s.len() ==> is_digit(#[trigger] s[i])
}

/// The number that the digits of `s` denote in base ten, most significant first.
pub open spec fn decimal_value(s: Seq<char>) -> nat
    decreases s.len(),
{
    if s.len() == 0 {
        0
    } else {
        10 * decimal_value(s.drop_last()) + digit_value(s.last())
    }
}

/// `s` without one leading plus sign.
pub open spec fn unsigned_part(s: Seq<char>) -> Seq<char> {
    if s.len() > 0 && s[0] == '+' {
        s.subrange(1, s.len() as int)
    } else {
        s
    }
}

/// The identifier that `s` denotes: an optional plus sign, then one or more
/// ASCII digits whose value fits the identifier type. Anything else, the empty
/// text and surrounding whitespace included, denotes none.
pub open spec fn parsed_id(s: Seq<char>) -> Option<usize> {
    let digits = unsigned_part(s);
    if digits.len() > 0 && all_digits(digits) && decimal_value(digits) <= usize::MAX {
        Some(decimal_value(digits) as usize)
    } else {
        None
    }
}

/// A number is at least what any of its leading digits denote on their own.
pub proof fn lemma_decimal_prefix(s: Seq<char>, k: int)
    requires
        0 <= k <= s.len(),
    ensures
        decimal_value(s.subrange(0, k)) <= decimal_value(s),
    decreases s.len() - k,
{
    if k == s.len() {
        assert(s.subrange(0, k) =~= s);
    } else {
        lemma_decimal_prefix(s, k + 1);
        assert(s.subrange(0, k + 1).drop_last() =~= s.subrange(0, k));
    }
}

/// Reads an identifier in decimal notation, as `str::parse::<usize>` does.
pub fn parse_id(text: &str) -> (r: Option<usize>)
    ensures
        r == parsed_id(text@),
{
    let len: usize = text.unicode_len();
    let mut it = text.chars();
    let mut i: usize = 0;
    let mut value: usize = 0;
    let mut count: usize = 0;
    let ghost digits = unsigned_part(text@);
    let ghost skip: int = text@.len() - digits.len();
    loop
        invariant
            len == text@.len(),
            0 <= i <= len,
            it.remaining() == text@.subrange(i as int, len as int),
            digits == unsigned_part(text@),
            digits == text@.subrange(skip, len as int),
            skip == 0 || skip == 1,
            skip == 1 <==> len > 0 && text@[0] == '+',
            i == 0 && count == 0 || i == skip + count,
            all_digits(digits.subrange(0, count as int)),
            value == decimal_value(digits.subrange(0, count as int)),
        ensures
            i == len,
            digits == unsigned_part(text@),
            count <= digits.len(),
            count == 0 || count == digits.len(),
            all_digits(digits.subrange(0, count as int)),
            value == decimal_value(digits.subrange(0, count as int)),
        decreases len - i,
    {
        match it.next() {
            Some(c) => {
                if i == 0 && c == '+' {
                    i = 1;
                } else if '0' <= c && c <= '9' {
                    let d: usize = (c as u32 - '0' as u32) as usize;
                    proof {
                        let k = count as int;
                        assert(digits.subrange(0, k + 1).drop_last() =~= digits.subrange(0, k));
                        lemma_decimal_prefix(digits, k + 1);
                    }
                    match value.checked_mul(10) {
                        Some(tens) => match tens.checked_add(d) {
                            Some(sum) => {
                                value = sum;
                            },
                            None => {
                                return None;
                            },
                        },
                        None => {
                            return None;
                        },
                    }
                    i = i + 1;
                    count = count + 1;
                } else {
                    return None;
                }
            },
            None => {
                break ;
            },
        }
    }
    proof {
        assert(digits.subrange(0, digits.len() as int) =~= digits);
    }
    if count == 0 {
        None
    } else {
        Some(value)
    }
}

/// The character for a digit below ten.
pub open spec fn digit_char(d: nat) -> char {
    ('0' as nat + d) as char
}

/// `n` in decimal notation, without leading zeros.
pub open spec fn decimal_text(n: nat) -> Seq<char>
    decreases n,
{
    if n < 10 {
        seq![digit_char(n)]
    } else {
        decimal_text(n / 10).push(digit_char(n % 10))
    }
}

/// Decimal notation holds digits only, at least one, and denotes the number
/// it was made from.
pub proof fn lemma_decimal_text(n: nat)
    ensures
        decimal_text(n).len() > 0,
        all_digits(decimal_text(n)),
        decimal_value(decimal_text(n)) == n,
    decreases n,
{
    if n < 10 {
        assert(decimal_value(decimal_text(n).drop_last()) == 0);
    } else {
        lemma_decimal_text(n / 10);
        assert(decimal_text(n).drop_last() =~= decimal_text(n / 10));
    }
}

/// An identifier written in decimal notation reads back as itself.
pub proof fn lemma_parse_decimal(id: usize)
    ensures
        parsed_id(decimal_text(id as nat)) == Some(id),
{
    lemma_decimal_text(id as nat);
}

fn digit_str(d: usize) -> (r: &'static str)
    requires
        d < 10,
    ensures
        r@ == seq![digit_char(d as nat)],
{
    proof {
        reveal_strlit("0");
        reveal_strlit("1");
        reveal_strlit("2");
        reveal_strlit("3");
        reveal_strlit("4");
        reveal_strlit("5");
        reveal_strlit("6");
        reveal_strlit("7");
        reveal_strlit("8");
        reveal_strlit("9");
    }
    let r = if d == 0 {
        "0"
    } else if d == 1 {
        "1"
    } else if d == 2 {
        "2"
    } else if d == 3 {
        "3"
    } else if d == 4 {
        "4"
    } else if d == 5 {
        "5"
    } else if d == 6 {
        "6"
    } else if d == 7 {
        "7"
    } else if d == 8 {
        "8"
    } else {
        "9"
    };
    r
}

/// Writes `n` in decimal notation, as `usize`'s `to_string` does.
pub fn decimal_string(n: usize) -> (r: String)
    ensures
        r@ == decimal_text(n as nat),
    decreases n,
{
    if n < 10 {
        String::from_str(digit_str(n))
    } else {
        let mut r = decimal_string(n / 10);
        r.append(digit_str(n % 10));
        r
    }
}

} // verus!
