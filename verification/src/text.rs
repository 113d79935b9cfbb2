//! Text as sequences of characters: lengths, prefixes, replacement, decimal
//! numbers and the splitting of long messages.

use vstd::arithmetic::power::{lemma_pow0, lemma_pow1, lemma_pow_adds, pow};
use vstd::prelude::*;
use vstd::utf8::{encode_utf8, is_ascii_chars};

verus! {

/// The number of bytes that `text` takes up in UTF-8.
pub fn byte_len(text: &str) -> (n: usize)
    ensures
        n == encode_utf8(text@).len(),
{
    text.as_bytes().len()
}

/// The bytes of two texts, one after the other, are the bytes of the first and
/// then those of the second.
pub proof fn lemma_encode_concat(a: Seq<char>, b: Seq<char>)
    ensures
        encode_utf8(a + b) == encode_utf8(a) + encode_utf8(b),
    decreases a.len(),
{
    if a.len() == 0 {
        assert(a + b =~= b);
        assert(encode_utf8(a) =~= Seq::empty());
    } else {
        assert((a + b).drop_first() =~= a.drop_first() + b);
        lemma_encode_concat(a.drop_first(), b);
    }
}

/// A text has no more characters than bytes.
pub proof fn lemma_chars_fit_bytes(text: Seq<char>)
    ensures
        text.len() <= encode_utf8(text).len(),
    decreases text.len(),
{
    if text.len() > 0 {
        lemma_chars_fit_bytes(text.drop_first());
    }
}

/// The characters of `text` before position `n`, or all of them where there
/// are no more than `n`.
pub open spec fn first_of(text: Seq<char>, n: nat) -> Seq<char> {
    if n <= text.len() {
        text.take(n as int)
    } else {
        text
    }
}

/// Returns the first `n` characters of `text`.
pub fn first_chars(text: &str, n: usize) -> (first: String)
    ensures
        first@ == first_of(text@, n as nat),
        first@.len() == if n <= text@.len() {
            n as nat
        } else {
            text@.len()
        },
        forall|i: int| 0 <= i < first@.len() ==> #[trigger] first@[i] == text@[i],
{
    if n <= text.unicode_len() {
        text.substring_char(0, n).to_owned()
    } else {
        text.to_owned()
    }
}

/// The first characters of a text are as many as were asked for, as far as there
/// are so many, and each is the one that stands at its place in the text.
pub proof fn law_first_characters_stay_in_place(text: Seq<char>, n: nat)
    ensures
        n <= text.len() ==> first_of(text, n).len() == n,
        n > text.len() ==> first_of(text, n).len() == text.len(),
        forall|i: int|
            0 <= i < first_of(text, n).len() ==> #[trigger] first_of(text, n)[i] == text[i],
{
}

/// Whether two texts hold the same characters.
pub fn same_text(a: &str, b: &str) -> (same: bool)
    ensures
        same == (a@ == b@),
{
    a.to_owned() == b.to_owned()
}

/// Whether `text` begins with `prefix`.
pub fn starts_with(text: &str, prefix: &str) -> (r: bool)
    ensures
        r == prefix@.is_prefix_of(text@),
{
    let n: usize = prefix.unicode_len();
    if text.unicode_len() < n {
        false
    } else {
        same_text(text.substring_char(0, n), prefix)
    }
}

/// Takes `prefix` off the front of `text`; `None` where `text` does not begin
/// with it.
pub fn strip_prefix(text: &str, prefix: &str) -> (rest: Option<String>)
    ensures
        rest is Some <==> prefix@.is_prefix_of(text@),
        rest matches Some(r) ==> r@ == text@.skip(prefix@.len() as int),
        rest matches Some(r) ==> text@ == prefix@ + r@,
{
    if starts_with(text, prefix) {
        Some(text.substring_char(prefix.unicode_len(), text.unicode_len()).to_owned())
    } else {
        None
    }
}

/// `text` without `suffix` at its end; all of `text` where it does not end in
/// `suffix`.
pub open spec fn without_suffix(text: Seq<char>, suffix: Seq<char>) -> Seq<char> {
    if suffix.is_suffix_of(text) {
        text.take(text.len() - suffix.len())
    } else {
        text
    }
}

/// A suffix that was put behind a text comes off again, and where the suffix does
/// not stand at the end nothing comes off.
pub proof fn law_suffix_comes_off(text: Seq<char>, rest: Seq<char>, suffix: Seq<char>)
    ensures
        without_suffix(rest + suffix, suffix) == rest,
        !suffix.is_suffix_of(text) ==> without_suffix(text, suffix) == text,
{
    let whole = rest + suffix;
    assert(whole.subrange(whole.len() - suffix.len(), whole.len() as int) =~= suffix);
    assert(suffix.is_suffix_of(whole));
    assert(without_suffix(whole, suffix) =~= rest);
}

/// Takes `suffix` off the end of `text` where it stands there.
pub fn trim_suffix(text: &str, suffix: &str) -> (rest: String)
    ensures
        rest@ == without_suffix(text@, suffix@),
        suffix@.is_suffix_of(text@) ==> text@ == rest@ + suffix@,
        !suffix@.is_suffix_of(text@) ==> rest@ == text@,
{
    let n: usize = suffix.unicode_len();
    let len: usize = text.unicode_len();
    if len >= n && same_text(text.substring_char(len - n, len), suffix) {
        text.substring_char(0, len - n).to_owned()
    } else {
        text.to_owned()
    }
}

/// `text` with every occurrence of `pattern` replaced by `with`, taken from
/// the left and without overlaps. `pattern` is not empty.
pub open spec fn replaced(text: Seq<char>, pattern: Seq<char>, with: Seq<char>) -> Seq<char>
    decreases text.len(),
{
    if pattern.len() == 0 || text.len() < pattern.len() {
        text
    } else if pattern.is_prefix_of(text) {
        with + replaced(text.skip(pattern.len() as int), pattern, with)
    } else {
        seq![text[0]] + replaced(text.skip(1), pattern, with)
    }
}

/// Whether `pattern` stands in `text` at position `i`.
pub open spec fn occurs_at(text: Seq<char>, pattern: Seq<char>, i: int) -> bool {
    &&& 0 <= i
    &&& i + pattern.len() <= text.len()
    &&& text.subrange(i, i + pattern.len()) == pattern
}

/// A text in which the pattern does not occur stays as it is.
pub proof fn law_nothing_else_is_replaced(text: Seq<char>, pattern: Seq<char>, with: Seq<char>)
    requires
        pattern.len() > 0,
        forall|i: int| !#[trigger] occurs_at(text, pattern, i),
    ensures
        replaced(text, pattern, with) == text,
    decreases text.len(),
{
    if text.len() >= pattern.len() {
        assert(!occurs_at(text, pattern, 0));
        if pattern.is_prefix_of(text) {
            assert(text.subrange(0, pattern.len() as int) =~= pattern);
        }
        let rest = text.skip(1);
        assert forall|i: int| !#[trigger] occurs_at(rest, pattern, i) by {
            assert(!occurs_at(text, pattern, i + 1));
            if 0 <= i && i + pattern.len() <= rest.len() {
                assert(rest.subrange(i, i + pattern.len()) =~= text.subrange(
                    i + 1,
                    i + 1 + pattern.len(),
                ));
            }
        }
        law_nothing_else_is_replaced(rest, pattern, with);
        assert(seq![text[0]] + rest =~= text);
    }
}

/// Where the pattern occurs first, what stands before it stays, the pattern gives
/// way, and the rest is dealt with in the same way.
pub proof fn law_first_occurrence_is_replaced(
    text: Seq<char>,
    pattern: Seq<char>,
    with: Seq<char>,
    i: int,
)
    requires
        pattern.len() > 0,
        occurs_at(text, pattern, i),
        forall|j: int| 0 <= j < i ==> !#[trigger] occurs_at(text, pattern, j),
    ensures
        replaced(text, pattern, with) == text.take(i) + with + replaced(
            text.skip(i + pattern.len()),
            pattern,
            with,
        ),
    decreases text.len(),
{
    if i == 0 {
        assert(pattern.is_prefix_of(text)) by {
            assert(text.subrange(0, pattern.len() as int) == pattern);
        }
        assert(text.take(0) + with =~= with);
    } else {
        assert(!occurs_at(text, pattern, 0));
        if pattern.is_prefix_of(text) {
            assert(text.subrange(0, pattern.len() as int) =~= pattern);
        }
        let rest = text.skip(1);
        assert(rest.subrange(i - 1, i - 1 + pattern.len()) =~= text.subrange(
            i,
            i + pattern.len(),
        ));
        assert forall|j: int| 0 <= j < i - 1 implies !#[trigger] occurs_at(rest, pattern, j) by {
            assert(!occurs_at(text, pattern, j + 1));
            if j + pattern.len() <= rest.len() {
                assert(rest.subrange(j, j + pattern.len()) =~= text.subrange(
                    j + 1,
                    j + 1 + pattern.len(),
                ));
            }
        }
        law_first_occurrence_is_replaced(rest, pattern, with, i - 1);
        assert(rest.skip(i - 1 + pattern.len()) =~= text.skip(i + pattern.len()));
        assert(seq![text[0]] + (rest.take(i - 1) + with + replaced(
            text.skip(i + pattern.len()),
            pattern,
            with,
        )) =~= text.take(i) + with + replaced(text.skip(i + pattern.len()), pattern, with));
    }
}

/// Replaces every occurrence of `pattern` in `text` by `with`.
pub fn replace_all(text: &str, pattern: &str, with: &str) -> (out: String)
    requires
        pattern@.len() > 0,
    ensures
        out@ == replaced(text@, pattern@, with@),
{
    let mut out = String::new();
    let len: usize = text.unicode_len();
    let n: usize = pattern.unicode_len();
    let mut at: usize = 0;
    proof {
        assert(text@.skip(0) =~= text@);
    }
    while len - at >= n
        invariant
            at <= len == text@.len(),
            n == pattern@.len() > 0,
            replaced(text@, pattern@, with@) =~= out@ + replaced(
                text@.skip(at as int),
                pattern@,
                with@,
            ),
        decreases len - at,
    {
        let ghost rest = text@.skip(at as int);
        proof {
            assert(pattern@.is_prefix_of(rest) <==> text@.subrange(at as int, at + n) =~= pattern@)
                by {
                assert(rest.take(n as int) =~= text@.subrange(at as int, at + n));
                if pattern@.is_prefix_of(rest) {
                    assert(rest.take(n as int) =~= pattern@);
                }
            }
        }
        if same_text(text.substring_char(at, at + n), pattern) {
            out.append(with);
            proof {
                assert(rest.skip(n as int) =~= text@.skip(at + n));
            }
            at = at + n;
        } else {
            out.append(text.substring_char(at, at + 1));
            proof {
                assert(text@.subrange(at as int, at + 1) =~= seq![rest[0]]);
                assert(rest.skip(1) =~= text@.skip(at + 1));
            }
            at = at + 1;
        }
    }
    out.append(text.substring_char(at, len));
    proof {
        assert(text@.subrange(at as int, len as int) =~= text@.skip(at as int));
    }
    out
}

/// The text of a decimal digit.
pub open spec fn digit(d: nat) -> char {
    (48 + d) as char
}

/// The decimal notation of `n`, without leading zeros.
pub open spec fn decimal(n: nat) -> Seq<char>
    decreases n,
{
    if n < 10 {
        seq![digit(n)]
    } else {
        decimal(n / 10).push(digit(n % 10))
    }
}

/// The number that a text of decimal digits is read as: each digit counts ten
/// times what the digit to its right does.
pub open spec fn reading(digits: Seq<char>) -> int
    decreases digits.len(),
{
    if digits.len() == 0 {
        0
    } else {
        10 * reading(digits.drop_last()) + (digits.last() as int - '0' as int)
    }
}

/// Whether `text` is how `n` is written: digits that read as `n`, with a zero in
/// front only where it is the one digit.
pub open spec fn is_numeral(text: Seq<char>, n: int) -> bool {
    &&& text.len() > 0
    &&& forall|i: int| 0 <= i < text.len() ==> '0' <= #[trigger] text[i] && text[i] <= '9'
    &&& text.len() > 1 ==> text[0] != '0'
    &&& reading(text) == n
}

/// A digit counts itself times ten to the power of the number of digits behind
/// it.
pub proof fn law_digits_count_by_their_place(before: Seq<char>, c: char, behind: Seq<char>)
    ensures
        reading(before + seq![c] + behind) == reading(before) * pow(10, behind.len() + 1) + (
        c as int - '0' as int) * pow(10, behind.len()) + reading(behind),
{
    let head = before + seq![c];
    assert(head.drop_last() =~= before);
    lemma_reading_concat(head, behind);
    lemma_pow1(10);
    lemma_pow_adds(10, 1, behind.len());
    let p = pow(10, behind.len());
    let b = reading(before);
    let d = c as int - '0' as int;
    assert(pow(10, behind.len() + 1) == 10 * p);
    assert((10 * b + d) * p == b * (10 * p) + d * p) by (nonlinear_arith);
}

proof fn lemma_reading_concat(a: Seq<char>, b: Seq<char>)
    ensures
        reading(a + b) == reading(a) * pow(10, b.len()) + reading(b),
    decreases b.len(),
{
    if b.len() == 0 {
        assert(a + b =~= a);
        lemma_pow0(10);
    } else {
        assert((a + b).drop_last() =~= a + b.drop_last());
        lemma_reading_concat(a, b.drop_last());
        lemma_pow1(10);
        lemma_pow_adds(10, 1, (b.len() - 1) as nat);
        let p = pow(10, (b.len() - 1) as nat);
        let r = reading(a);
        assert(pow(10, b.len()) == 10 * p);
        assert(10 * (r * p) == r * (10 * p)) by (nonlinear_arith);
    }
}

/// The decimal notation of a number is made of digits, has no zero in front that
/// could be left out, and reads as the number.
pub proof fn law_decimal_reads_back(n: nat)
    ensures
        is_numeral(decimal(n), n as int),
    decreases n,
{
    reveal_with_fuel(reading, 2);
    if n >= 10 {
        law_decimal_reads_back(n / 10);
        let front = decimal(n / 10);
        let all = decimal(n);
        assert(all.drop_last() =~= front);
        assert(all[0] == front[0]);
        if front.len() == 1 {
            assert(front.drop_last() =~= Seq::empty());
            assert(reading(front) == front[0] as int - '0' as int);
        }
    } else {
        assert(decimal(n).drop_last() =~= Seq::empty());
    }
}

/// There is only one way to write a number.
pub proof fn law_numerals_are_unique(a: Seq<char>, b: Seq<char>, n: int)
    requires
        is_numeral(a, n),
        is_numeral(b, n),
    ensures
        a == b,
    decreases a.len(),
{
    lemma_numeral_front(a, n);
    lemma_numeral_front(b, n);
    assert(a.last() == b.last());
    if a.len() > 1 {
        law_numerals_are_unique(a.drop_last(), b.drop_last(), n / 10);
    }
    assert(a =~= a.drop_last().push(a.last()));
    assert(b =~= b.drop_last().push(b.last()));
    if a.len() == 1 {
        assert(a.drop_last() =~= b.drop_last());
    }
}

proof fn lemma_numeral_front(a: Seq<char>, n: int)
    requires
        is_numeral(a, n),
    ensures
        0 <= n,
        n < 10 <==> a.len() == 1,
        a.last() as int - '0' as int == n % 10,
        a.len() > 1 ==> is_numeral(a.drop_last(), n / 10),
    decreases a.len(),
{
    let front = a.drop_last();
    assert('0' <= a.last() && a.last() <= '9');
    if a.len() == 1 {
        assert(reading(front) == 0);
    } else {
        assert(forall|i: int| 0 <= i < front.len() ==> front[i] == a[i]);
        assert(front[0] != '0');
        assert(is_numeral(front, reading(front)));
        lemma_numeral_front(front, reading(front));
        if front.len() == 1 {
            assert(front.drop_last() =~= Seq::empty());
            assert('0' <= front[0] && front[0] <= '9');
        }
        assert(reading(front) >= 1);
    }
}

fn digit_text(d: u64) -> (text: &'static str)
    requires
        d < 10,
    ensures
        text@ == seq![digit(d as nat)],
{
    proof {
        reveal_strlit("0");
        reveal_strlit("1");
        reveal_strlit("2");
        reveal_strlit("3");
        reveal_strlit("4");
        reveal_strlit("5");
        reveal_strlit("6");
        reveal_strlit("7");
        reveal_strlit("8");
        reveal_strlit("9");
    }
    if d == 0 {
        "0"
    } else if d == 1 {
        "1"
    } else if d == 2 {
        "2"
    } else if d == 3 {
        "3"
    } else if d == 4 {
        "4"
    } else if d == 5 {
        "5"
    } else if d == 6 {
        "6"
    } else if d == 7 {
        "7"
    } else if d == 8 {
        "8"
    } else {
        "9"
    }
}

/// Writes `n` in decimal notation.
pub fn decimal_text(n: u64) -> (text: String)
    ensures
        text@ == decimal(n as nat),
        is_numeral(text@, n as int),
    decreases n,
{
    proof {
        law_decimal_reads_back(n as nat);
    }
    if n < 10 {
        digit_text(n).to_owned()
    } else {
        let mut text = decimal_text(n / 10);
        text.append(digit_text(n % 10));
        proof {
            assert(decimal((n / 10) as nat) + seq![digit((n % 10) as nat)] =~= decimal(n as nat));
        }
        text
    }
}

/// Different numbers have different decimal notations.
pub proof fn law_decimal_is_injective(a: nat, b: nat)
    requires
        decimal(a) == decimal(b),
    ensures
        a == b,
    decreases a,
{
    assert(decimal(a).last() == digit(a % 10));
    assert(decimal(b).last() == digit(b % 10));
    lemma_decimal_len(a);
    lemma_decimal_len(b);
    if a >= 10 {
        assert(b >= 10);
        assert(decimal(a).drop_last() =~= decimal(a / 10));
        assert(decimal(b).drop_last() =~= decimal(b / 10));
        law_decimal_is_injective(a / 10, b / 10);
    }
}

proof fn lemma_decimal_len(n: nat)
    ensures
        n < 10 <==> decimal(n).len() == 1,
    decreases n,
{
    if n >= 10 {
        lemma_decimal_len(n / 10);
        assert(decimal(n / 10).len() >= 1) by {
            if n / 10 < 10 {
            } else {
                assert(decimal(n / 10) == decimal(n / 10 / 10).push(digit(n / 10 % 10)));
            }
        }
    }
}

/// The lower case of a text, as `str::to_lowercase` has it.
pub uninterp spec fn lowercase(text: Seq<char>) -> Seq<char>;

/// The lower case of an ASCII character.
pub open spec fn ascii_lower(c: char) -> char {
    if 'A' <= c && c <= 'Z' {
        (c as u32 + 32) as char
    } else {
        c
    }
}

/// A text of ASCII characters with a small letter for each of `A` to `Z`, and
/// any other text as `str::to_lowercase` has it.
pub open spec fn lower_case(text: Seq<char>) -> Seq<char> {
    if is_ascii_chars(text) {
        text.map_values(|c: char| ascii_lower(c))
    } else {
        lowercase(text)
    }
}

/// The lower case of an ASCII text is ASCII, and its own lower case.
pub proof fn law_ascii_lower_case_stays(text: Seq<char>)
    requires
        is_ascii_chars(text),
    ensures
        is_ascii_chars(lower_case(text)),
        lower_case(lower_case(text)) == lower_case(text),
{
    let lower = lower_case(text);
    assert(lower.map_values(|c: char| ascii_lower(c)) =~= lower);
}

/// In the lower case of an ASCII text each of `A` to `Z` has given way to its
/// small letter, and every other character stands where it stood. Any other text
/// is what `str::to_lowercase` makes of it.
pub proof fn law_lower_case_by_character(text: Seq<char>)
    ensures
        is_ascii_chars(text) ==> {
            &&& lower_case(text).len() == text.len()
            &&& forall|i: int|
                0 <= i < text.len() ==> #[trigger] lower_case(text)[i] as int == (if 'A' <= text[i]
                    && text[i] <= 'Z' {
                    text[i] as int + 32
                } else {
                    text[i] as int
                })
        },
        !is_ascii_chars(text) ==> lower_case(text) == lowercase(text),
{
}

/// Lower-cases a text with std's `str::to_lowercase`. The result is a function
/// of the text alone; on a text of ASCII characters each of `A` to `Z` becomes
/// its small letter and every other character stays. Of other texts nothing more
/// is claimed, and so not that the result is its own lower case.
#[verifier::external_body]
pub(crate) fn to_lowercase(text: &str) -> (lower: String)
    ensures
        lower@ == lowercase(text@),
        is_ascii_chars(text@) ==> lower@ == text@.map_values(|c: char| ascii_lower(c)),
{
    text.to_lowercase()
}

/// The number of pieces of `size` characters that a text of `len` characters
/// falls into.
pub open spec fn piece_count(len: nat, size: nat) -> nat
    recommends
        size > 0,
{
    (len + size - 1) as nat / size
}

/// Piece number `i` of a text cut into pieces of `size` characters.
pub open spec fn piece(text: Seq<char>, size: nat, i: int) -> Seq<char> {
    text.subrange(
        i * size,
        if (i + 1) * size <= text.len() {
            (i + 1) * size
        } else {
            text.len() as int
        },
    )
}

/// A text cut from the left into pieces of `size` characters, the last of
/// which may be shorter.
pub open spec fn pieces(text: Seq<char>, size: nat) -> Seq<Seq<char>> {
    Seq::new(piece_count(text.len(), size), |i: int| piece(text, size, i))
}

/// The characters of a list of texts.
pub open spec fn views(texts: Seq<String>) -> Seq<Seq<char>> {
    texts.map_values(|t: String| t@)
}

/// Cuts `text` into pieces of `size` characters.
pub fn split_pieces(text: &str, size: usize) -> (out: Vec<String>)
    requires
        size > 0,
    ensures
        views(out@) == pieces(text@, size as nat),
        forall|i: int, j: int|
            0 <= i < out@.len() && 0 <= j < out@[i]@.len() ==> #[trigger] out@[i]@[j] == text@[i
                * size + j],
        forall|i: int|
            0 <= i < out@.len() ==> (#[trigger] out@[i])@.len() == (if (i + 1) * size
                <= text@.len() {
                size as int
            } else {
                text@.len() - i * size
            }),
        text@.len() > 0 ==> (out@.len() - 1) * size < text@.len() <= out@.len() * size,
        text@.len() == 0 ==> out@.len() == 0,
{
    let mut out: Vec<String> = Vec::new();
    let len: usize = text.unicode_len();
    let mut at: usize = 0;
    let ghost mut k: int = 0;
    proof {
        assert(piece_count(0, size as nat) == 0) by (nonlinear_arith)
            requires
                size > 0,
        ;
    }
    while at < len
        invariant
            at <= len == text@.len(),
            size > 0,
            0 <= k,
            k == out@.len(),
            at < len ==> at == k * size,
            at == len ==> k == piece_count(len as nat, size as nat),
            forall|i: int| 0 <= i < k ==> (#[trigger] out@[i])@ == piece(text@, size as nat, i),
        decreases len - at,
    {
        let end: usize = if len - at >= size {
            at + size
        } else {
            len
        };
        out.push(text.substring_char(at, end).to_owned());
        proof {
            assert((k + 1) * size == k * size + size) by (nonlinear_arith);
            if end == len {
                lemma_piece_count(len as nat, size as nat, k);
            }
            k = k + 1;
        }
        at = end;
    }
    proof {
        assert(views(out@) =~= pieces(text@, size as nat));
        law_pieces_cover_the_text(text@, size as nat);
        assert forall|i: int| 0 <= i < out@.len() implies (#[trigger] out@[i])@ == pieces(
            text@,
            size as nat,
        )[i] by {
            assert(views(out@)[i] == out@[i]@);
        }
        assert forall|i: int, j: int|
            0 <= i < out@.len() && 0 <= j < out@[i]@.len() implies #[trigger] out@[i]@[j]
            == text@[i * size + j] by {
            law_piece_holds_its_part(text@, size as nat, i);
        }
        assert forall|i: int| 0 <= i < out@.len() implies (#[trigger] out@[i])@.len() == (if (i
            + 1) * size <= text@.len() {
            size as int
        } else {
            text@.len() - i * size
        }) by {
            law_piece_holds_its_part(text@, size as nat, i);
        }
    }
    out
}

/// The texts of a list, one after the other.
pub open spec fn joined(parts: Seq<Seq<char>>) -> Seq<char>
    decreases parts.len(),
{
    if parts.len() == 0 {
        Seq::empty()
    } else {
        joined(parts.drop_last()) + parts.last()
    }
}

/// Put together again, the pieces of a text are the text.
pub proof fn law_pieces_rejoin(text: Seq<char>, size: nat)
    requires
        size > 0,
    ensures
        joined(pieces(text, size)) == text,
{
    let n = piece_count(text.len(), size);
    lemma_last_piece(text.len(), size);
    if n > 0 {
        lemma_joined_prefix(text, size, n - 1);
    }
    assert(pieces(text, size).take(n as int) =~= pieces(text, size));
}

/// Every piece of a text holds between one and `size` characters, and every
/// piece but the last holds exactly `size`.
pub proof fn law_piece_lengths(text: Seq<char>, size: nat, i: int)
    requires
        size > 0,
        0 <= i < pieces(text, size).len(),
    ensures
        1 <= pieces(text, size)[i].len() <= size,
        i + 1 < pieces(text, size).len() ==> pieces(text, size)[i].len() == size,
{
    let n = piece_count(text.len(), size);
    lemma_last_piece(text.len(), size);
    assert((i + 1) * size == i * size + size) by (nonlinear_arith);
    assert(i * size >= 0) by (nonlinear_arith)
        requires
            i >= 0,
    ;
    assert(i * size <= (n - 1) * size) by (nonlinear_arith)
        requires
            i <= n - 1,
    ;
    if i + 1 < n {
        assert((i + 1) * size <= (n - 1) * size) by (nonlinear_arith)
            requires
                i + 1 <= n - 1,
        ;
    }
}

/// The pieces reach to the end of the text, and none begins behind it.
pub proof fn law_pieces_cover_the_text(text: Seq<char>, size: nat)
    requires
        size > 0,
    ensures
        text.len() == 0 <==> pieces(text, size).len() == 0,
        text.len() > 0 ==> (pieces(text, size).len() - 1) * size < text.len() <= pieces(
            text,
            size,
        ).len() * size,
{
    lemma_last_piece(text.len(), size);
}

/// Piece number `i` holds the characters from position `i * size` on, `size` of
/// them or as many as there are.
pub proof fn law_piece_holds_its_part(text: Seq<char>, size: nat, i: int)
    requires
        size > 0,
        0 <= i < pieces(text, size).len(),
    ensures
        pieces(text, size)[i].len() == (if (i + 1) * size <= text.len() {
            size as int
        } else {
            text.len() - i * size
        }),
        forall|j: int|
            0 <= j < pieces(text, size)[i].len() ==> #[trigger] pieces(text, size)[i][j] == text[i
                * size + j],
{
    law_piece_lengths(text, size, i);
    lemma_last_piece(text.len(), size);
    let n = piece_count(text.len(), size);
    assert((i + 1) * size == i * size + size) by (nonlinear_arith);
    assert(i * size >= 0) by (nonlinear_arith)
        requires
            i >= 0,
    ;
    assert(i * size <= (n - 1) * size) by (nonlinear_arith)
        requires
            i <= n - 1,
    ;
}

/// The first `k + 1` pieces, joined, are the text up to where piece `k` ends.
proof fn lemma_joined_prefix(text: Seq<char>, size: nat, k: int)
    requires
        size > 0,
        0 <= k < piece_count(text.len(), size),
    ensures
        joined(pieces(text, size).take(k + 1)) == (if (k + 1) * size <= text.len() {
            text.take((k + 1) * size)
        } else {
            text
        }),
    decreases k,
{
    let all = pieces(text, size);
    let n = piece_count(text.len(), size);
    lemma_last_piece(text.len(), size);
    assert(all.take(k + 1).drop_last() =~= all.take(k));
    assert((k + 1) * size == k * size + size) by (nonlinear_arith);
    assert(k * size <= (n - 1) * size) by (nonlinear_arith)
        requires
            k <= n - 1,
    ;
    if k == 0 {
        assert(all.take(0) =~= Seq::empty());
        assert(k * size == 0) by (nonlinear_arith)
            requires
                k == 0,
        ;
        assert(joined(all.take(0)) =~= text.take(0));
    } else {
        lemma_joined_prefix(text, size, k - 1);
        assert(joined(all.take(k)) == text.take(k * size));
        assert(k * size >= 0) by (nonlinear_arith)
            requires
                k >= 0,
        ;
    }
    assert(joined(all.take(k + 1)) =~= text.take(k * size) + piece(text, size, k));
    if (k + 1) * size <= text.len() {
        assert(text.take(k * size) + piece(text, size, k) =~= text.take((k + 1) * size));
    } else {
        assert(text.take(k * size) + piece(text, size, k) =~= text);
    }
}

/// The last piece begins within the text and ends with it.
proof fn lemma_last_piece(len: nat, size: nat)
    by (nonlinear_arith)
    requires
        size > 0,
    ensures
        len == 0 <==> piece_count(len, size) == 0,
        len > 0 ==> (piece_count(len, size) - 1) * size < len <= piece_count(len, size) * size,
{
}

/// A text that ends within piece `k` has `k + 1` pieces.
proof fn lemma_piece_count(len: nat, size: nat, k: int)
    by (nonlinear_arith)
    requires
        size > 0,
        k >= 0,
        k * size < len <= (k + 1) * size,
    ensures
        piece_count(len, size) == k + 1,
{
}

} // verus!
