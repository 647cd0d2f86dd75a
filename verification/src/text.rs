//! Character-level helpers for the textual values the batch jobs read:
//! white space trimming, splitting, integer parsing and decimal rendering.
use vstd::prelude::*;
use vstd::string::*;

verus! {

/// The characters that Unicode classifies as `White_Space`
/// (exactly the ones for which `char::is_whitespace` holds).
pub open spec fn is_white_space(c: char) -> bool {
    ||| c == '\t' || c == '\n' || c == '\u{0B}' || c == '\u{0C}' || c == '\r' || c == ' '
    ||| c == '\u{85}' || c == '\u{A0}' || c == '\u{1680}'
    ||| ('\u{2000}' <= c && c <= '\u{200A}')
    ||| c == '\u{2028}' || c == '\u{2029}' || c == '\u{202F}' || c == '\u{205F}' || c == '\u{3000}'
}

pub fn white_space(c: char) -> (r: bool)
    ensures
        r == is_white_space(c),
{
    c == '\t' || c == '\n' || c == '\u{0B}' || c == '\u{0C}' || c == '\r' || c == ' ' || c
        == '\u{85}' || c == '\u{A0}' || c == '\u{1680}' || ('\u{2000}' <= c && c <= '\u{200A}')
        || c == '\u{2028}' || c == '\u{2029}' || c == '\u{202F}' || c == '\u{205F}' || c
        == '\u{3000}'
}

/// `s` without its leading white space.
pub open spec fn trim_start(s: Seq<char>) -> Seq<char>
    decreases s.len(),
{
    if s.len() > 0 && is_white_space(s[0]) {
        trim_start(s.drop_first())
    } else {
        s
    }
}

/// `s` without its trailing white space.
pub open spec fn trim_end(s: Seq<char>) -> Seq<char>
    decreases s.len(),
{
    if s.len() > 0 && is_white_space(s.last()) {
        trim_end(s.drop_last())
    } else {
        s
    }
}

/// `s` without leading and trailing white space (what `str::trim` returns).
pub open spec fn trim(s: Seq<char>) -> Seq<char> {
    trim_end(trim_start(s))
}

/// The characters of `s`, one by one.
pub fn chars_of(s: &str) -> (r: Vec<char>)
    ensures
        r@ == s@,
{
    let n = s.unicode_len();
    let mut v: Vec<char> = Vec::new();
    let mut i: usize = 0;
    while i < n
        invariant
            n == s@.len(),
            i <= n,
            v@ == s@.subrange(0, i as int),
        decreases n - i,
    {
        let c = s.get_char(i);
        v.push(c);
        i = i + 1;
        assert(v@ =~= s@.subrange(0, i as int));
    }
    assert(v@ =~= s@);
    v
}

/// Whether two texts are equal (the std `==` on `str`).
#[verifier::external_body]
pub(crate) fn str_eq(a: &str, b: &str) -> (r: bool)
    ensures
        r == (a@ == b@),
{
    a == b
}

/// Appends one character (the std `String::push`).
#[verifier::external_body]
pub(crate) fn string_push(s: &mut String, c: char)
    ensures
        final(s)@ == old(s)@.push(c),
{
    s.push(c)
}

/// Builds a `String` from a character sequence given as a slice range.
pub fn string_from_range(cs: &Vec<char>, from: usize, to: usize) -> (r: String)
    requires
        from <= to <= cs@.len(),
    ensures
        r@ == cs@.subrange(from as int, to as int),
{
    let mut r = String::new();
    let mut i: usize = from;
    while i < to
        invariant
            from <= i <= to <= cs@.len(),
            r@ == cs@.subrange(from as int, i as int),
        decreases to - i,
    {
        string_push(&mut r, cs[i]);
        i = i + 1;
        assert(r@ =~= cs@.subrange(from as int, i as int));
    }
    r
}

proof fn lemma_trim_start_skip(s: Seq<char>, i: int)
    requires
        0 <= i <= s.len(),
        forall|k: int| 0 <= k < i ==> is_white_space(#[trigger] s[k]),
    ensures
        trim_start(s) == trim_start(s.subrange(i, s.len() as int)),
    decreases i,
{
    if i > 0 {
        assert(s.drop_first() =~= s.subrange(1, s.len() as int));
        lemma_trim_start_skip(s.drop_first(), i - 1);
        assert(s.drop_first().subrange(i - 1, s.drop_first().len() as int) =~= s.subrange(
            i,
            s.len() as int,
        ));
    } else {
        assert(s.subrange(0, s.len() as int) =~= s);
    }
}

proof fn lemma_trim_end_skip(s: Seq<char>, j: int)
    requires
        0 <= j <= s.len(),
        forall|k: int| j <= k < s.len() ==> is_white_space(#[trigger] s[k]),
    ensures
        trim_end(s) == trim_end(s.subrange(0, j)),
    decreases s.len() - j,
{
    if j < s.len() {
        lemma_trim_end_skip(s.drop_last(), j);
        assert(s.drop_last().subrange(0, j) =~= s.subrange(0, j));
    } else {
        assert(s.subrange(0, j) =~= s);
    }
}

/// `s` with leading and trailing white space removed (the std `str::trim`).
pub fn trim_str(s: &str) -> (r: String)
    ensures
        r@ == trim(s@),
{
    let cs = chars_of(s);
    let n = cs.len();
    let mut i: usize = 0;
    while i < n && white_space(cs[i])
        invariant
            n == cs@.len(),
            cs@ == s@,
            i <= n,
            forall|k: int| 0 <= k < i ==> is_white_space(#[trigger] cs@[k]),
        decreases n - i,
    {
        i = i + 1;
    }
    proof {
        lemma_trim_start_skip(s@, i as int);
    }
    let mut j: usize = n;
    while j > i && white_space(cs[j - 1])
        invariant
            n == cs@.len(),
            cs@ == s@,
            i <= j <= n,
            forall|k: int| j <= k < n ==> is_white_space(#[trigger] cs@[k]),
        decreases j,
    {
        j = j - 1;
    }
    proof {
        let t = s@.subrange(i as int, n as int);
        if i < n {
            assert(t[0] == s@[i as int]);
        }
        assert(trim_start(t) == t);
        lemma_trim_end_skip(t, j - i);
        assert(t.subrange(0, j - i) =~= s@.subrange(i as int, j as int));
        let u = s@.subrange(i as int, j as int);
        if j > i {
            assert(u.last() == s@[j - 1]);
        }
        assert(trim_end(u) == u);
    }
    string_from_range(&cs, i, j)
}

/// The pieces of `s` between the occurrences of `sep`, in order
/// (what `str::split` yields for a character separator).
pub open spec fn split(s: Seq<char>, sep: char) -> Seq<Seq<char>>
    decreases s.len(),
{
    if s.len() == 0 {
        seq![Seq::empty()]
    } else {
        let rest = split(s.drop_last(), sep);
        if s.last() == sep {
            rest.push(Seq::empty())
        } else {
            rest.update(rest.len() - 1, rest.last().push(s.last()))
        }
    }
}

/// Splitting two texts joined by the separator gives the pieces of the first
/// followed by the pieces of the second.
pub proof fn lemma_split_joined(a: Seq<char>, b: Seq<char>, sep: char)
    ensures
        split(a + seq![sep] + b, sep) == split(a, sep) + split(b, sep),
    decreases b.len(),
{
    let s = a + seq![sep] + b;
    if b.len() == 0 {
        assert(s.drop_last() =~= a);
        assert(split(a, sep).push(Seq::<char>::empty()) =~= split(a, sep) + split(b, sep));
    } else {
        let bd = b.drop_last();
        assert(s.drop_last() =~= a + seq![sep] + bd);
        lemma_split_joined(a, bd, sep);
        lemma_split_nonempty(bd, sep);
        let rest = split(s.drop_last(), sep);
        assert(rest == split(a, sep) + split(bd, sep));
        if b.last() == sep {
            assert(rest.push(Seq::<char>::empty()) =~= split(a, sep) + split(bd, sep).push(Seq::<char>::empty()));
        } else {
            let sb = split(bd, sep);
            assert(rest.update(rest.len() - 1, rest.last().push(s.last()))
                =~= split(a, sep) + sb.update(sb.len() - 1, sb.last().push(b.last())));
        }
    }
}

/// A text without the separator is a single piece.
pub proof fn lemma_split_without_sep(a: Seq<char>, sep: char)
    requires
        forall|i: int| 0 <= i < a.len() ==> a[i] != sep,
    ensures
        split(a, sep) == seq![a],
    decreases a.len(),
{
    if a.len() > 0 {
        let d = a.drop_last();
        lemma_split_without_sep(d, sep);
        assert(d.push(a.last()) =~= a);
        assert(seq![d].update(0, d.push(a.last())) =~= seq![a]);
    } else {
        assert(a =~= Seq::<char>::empty());
    }
}

proof fn lemma_split_nonempty(s: Seq<char>, sep: char)
    ensures
        split(s, sep).len() >= 1,
    decreases s.len(),
{
    if s.len() > 0 {
        lemma_split_nonempty(s.drop_last(), sep);
    }
}

/// Splits `s` at every `sep` (the std `str::split` with a `char` pattern).
pub fn split_str(s: &str, sep: char) -> (r: Vec<String>)
    ensures
        r@.len() == split(s@, sep).len(),
        forall|k: int| 0 <= k < r@.len() ==> #[trigger] r@[k]@ == split(s@, sep)[k],
{
    let cs = chars_of(s);
    let n = cs.len();
    let mut pieces: Vec<String> = Vec::new();
    let mut start: usize = 0;
    let mut i: usize = 0;
    while i < n
        invariant
            n == cs@.len(),
            cs@ == s@,
            start <= i <= n,
            split(s@.subrange(0, i as int), sep).len() == pieces@.len() + 1,
            forall|k: int|
                0 <= k < pieces@.len() ==> #[trigger] pieces@[k]@ == split(
                    s@.subrange(0, i as int),
                    sep,
                )[k],
            split(s@.subrange(0, i as int), sep).last() == s@.subrange(start as int, i as int),
        decreases n - i,
    {
        let ghost prev = s@.subrange(0, i as int);
        assert(s@.subrange(0, i + 1).drop_last() =~= prev);
        if cs[i] == sep {
            let piece = string_from_range(&cs, start, i);
            pieces.push(piece);
            start = i + 1;
            i = i + 1;
            assert(s@.subrange(start as int, i as int) =~= Seq::<char>::empty());
        } else {
            i = i + 1;
            assert(s@.subrange(start as int, i as int) =~= s@.subrange(start as int, i - 1).push(
                s@[i - 1],
            ));
        }
    }
    let last = string_from_range(&cs, start, n);
    pieces.push(last);
    assert(s@.subrange(0, n as int) =~= s@);
    pieces
}

} // verus!

verus! {

/// Declared so that parsing errors can carry the std error kind.
#[verifier::external_type_specification]
pub struct ExIntErrorKind(std::num::IntErrorKind);

pub open spec fn is_decimal_digit(c: char) -> bool {
    '0' <= c && c <= '9'
}

pub open spec fn digit_value(c: char) -> int {
    c as int - '0' as int
}

/// Reads the digits of `s` from left to right onto `acc` (subtracting them when
/// `negative`), failing at the first character that is not a digit or at the
/// first step that leaves `[min, max]` — the order in which std's integer
/// parser reports its errors.
pub open spec fn parse_digits(acc: int, s: Seq<char>, negative: bool, min: int, max: int) -> Result<
    int,
    std::num::IntErrorKind,
>
    decreases s.len(),
{
    if s.len() == 0 {
        Ok(acc)
    } else if !is_decimal_digit(s[0]) {
        Err(std::num::IntErrorKind::InvalidDigit)
    } else {
        let next = if negative {
            acc * 10 - digit_value(s[0])
        } else {
            acc * 10 + digit_value(s[0])
        };
        if next > max {
            Err(std::num::IntErrorKind::PosOverflow)
        } else if next < min {
            Err(std::num::IntErrorKind::NegOverflow)
        } else {
            parse_digits(next, s.drop_first(), negative, min, max)
        }
    }
}

/// What std's `str::parse` gives for an integer type whose range is `[min, max]`
/// (a type is signed exactly when `min < 0`).
pub open spec fn parse_integer(s: Seq<char>, min: int, max: int) -> Result<int, std::num::IntErrorKind> {
    if s.len() == 0 {
        Err(std::num::IntErrorKind::Empty)
    } else if s.len() == 1 && (s[0] == '+' || s[0] == '-') {
        Err(std::num::IntErrorKind::InvalidDigit)
    } else if s[0] == '+' {
        parse_digits(0, s.drop_first(), false, min, max)
    } else if s[0] == '-' && min < 0 {
        parse_digits(0, s.drop_first(), true, min, max)
    } else {
        parse_digits(0, s, false, min, max)
    }
}

fn parse_digits_exec(cs: &Vec<char>, from: usize, negative: bool, min: i128, max: i128) -> (r: Result<i128, std::num::IntErrorKind>)
    requires
        from <= cs@.len(),
        -0x1_0000_0000_0000_0000 <= min <= 0 <= max <= 0x1_0000_0000_0000_0000,
    ensures
        r matches Ok(v) ==> parse_digits(0, cs@.subrange(from as int, cs@.len() as int), negative, min as int, max as int) == Ok::<int, std::num::IntErrorKind>(v as int) && min <= v <= max,
        r matches Err(e) ==> parse_digits(0, cs@.subrange(from as int, cs@.len() as int), negative, min as int, max as int) == Err::<int, std::num::IntErrorKind>(e),
{
    let n = cs.len();
    let mut acc: i128 = 0;
    let mut i: usize = from;
    while i < n
        invariant
            n == cs@.len(),
            from <= i <= n,
            -0x1_0000_0000_0000_0000 <= min <= 0 <= max <= 0x1_0000_0000_0000_0000,
            min <= acc <= max,
            parse_digits(0, cs@.subrange(from as int, n as int), negative, min as int, max as int)
                == parse_digits(acc as int, cs@.subrange(i as int, n as int), negative, min as int, max as int),
        decreases n - i,
    {
        let c = cs[i];
        let ghost rest = cs@.subrange(i as int, n as int);
        assert(rest[0] == c);
        if !('0' <= c && c <= '9') {
            return Err(std::num::IntErrorKind::InvalidDigit);
        }
        let d: i128 = ((c as u32) - ('0' as u32)) as i128;
        let next: i128 = if negative { acc * 10 - d } else { acc * 10 + d };
        if next > max {
            return Err(std::num::IntErrorKind::PosOverflow);
        }
        if next < min {
            return Err(std::num::IntErrorKind::NegOverflow);
        }
        acc = next;
        i = i + 1;
        assert(rest.drop_first() =~= cs@.subrange(i as int, n as int));
    }
    assert(cs@.subrange(i as int, n as int) =~= Seq::<char>::empty());
    Ok(acc)
}

/// The message std displays for a `ParseIntError` of the given kind.
pub open spec fn int_error_display(k: std::num::IntErrorKind) -> Seq<char> {
    match k {
        std::num::IntErrorKind::Empty => "cannot parse integer from empty string"@,
        std::num::IntErrorKind::InvalidDigit => "invalid digit found in string"@,
        std::num::IntErrorKind::PosOverflow => "number too large to fit in target type"@,
        std::num::IntErrorKind::NegOverflow => "number too small to fit in target type"@,
        _ => "number would be zero for non-zero type"@,
    }
}

/// The message of a `ParseIntError` of kind `k`.
pub fn int_error_message(k: &std::num::IntErrorKind) -> (r: String)
    ensures
        r@ == int_error_display(*k),
{
    match k {
        std::num::IntErrorKind::Empty => "cannot parse integer from empty string".to_owned(),
        std::num::IntErrorKind::InvalidDigit => "invalid digit found in string".to_owned(),
        std::num::IntErrorKind::PosOverflow => "number too large to fit in target type".to_owned(),
        std::num::IntErrorKind::NegOverflow => "number too small to fit in target type".to_owned(),
        _ => "number would be zero for non-zero type".to_owned(),
    }
}

/// Parses `s` as an integer of the range `[min, max]` the way std's `str::parse` does.
pub fn parse_integer_str(s: &str, min: i128, max: i128) -> (r: Result<i128, std::num::IntErrorKind>)
    requires
        -0x1_0000_0000_0000_0000 <= min <= 0 <= max <= 0x1_0000_0000_0000_0000,
    ensures
        r matches Ok(v) ==> parse_integer(s@, min as int, max as int) == Ok::<int, std::num::IntErrorKind>(v as int) && min <= v <= max,
        r matches Err(e) ==> parse_integer(s@, min as int, max as int) == Err::<int, std::num::IntErrorKind>(e),
{
    let cs = chars_of(s);
    let n = cs.len();
    if n == 0 {
        return Err(std::num::IntErrorKind::Empty);
    }
    if n == 1 && (cs[0] == '+' || cs[0] == '-') {
        return Err(std::num::IntErrorKind::InvalidDigit);
    }
    if cs[0] == '+' {
        assert(cs@.subrange(1, n as int) =~= s@.drop_first());
        parse_digits_exec(&cs, 1, false, min, max)
    } else if cs[0] == '-' && min < 0 {
        assert(cs@.subrange(1, n as int) =~= s@.drop_first());
        parse_digits_exec(&cs, 1, true, min, max)
    } else {
        assert(cs@.subrange(0, n as int) =~= s@);
        parse_digits_exec(&cs, 0, false, min, max)
    }
}

} // verus!

verus! {

/// The lower-case form of a text, as std's `str::to_lowercase` computes it
/// from the Unicode case tables.
pub uninterp spec fn lowercase_of(s: Seq<char>) -> Seq<char>;

/// The ASCII lower case of a character: `A` to `Z` become `a` to `z`.
pub open spec fn ascii_lower(c: char) -> char {
    if 'A' <= c && c <= 'Z' {
        ((c as u32) + 32) as char
    } else {
        c
    }
}

/// A text of ASCII characters only.
pub open spec fn is_ascii_text(s: Seq<char>) -> bool {
    forall|i: int| 0 <= i < s.len() ==> (s[i] as u32) < 128
}

/// A text with each ASCII capital letter lowered.
pub open spec fn ascii_lowercase(s: Seq<char>) -> Seq<char> {
    s.map_values(|c: char| ascii_lower(c))
}

/// The lower-case form of `s` (the std `str::to_lowercase`); a text of ASCII
/// characters only has each letter lowered as ASCII does.
#[verifier::external_body]
pub(crate) fn to_lowercase(s: &str) -> (r: String)
    ensures
        r@ == lowercase_of(s@),
        is_ascii_text(s@) ==> r@ == ascii_lowercase(s@),
{
    s.to_lowercase()
}

} // verus!

verus! {

pub open spec fn digit_char(d: nat) -> char {
    if d == 0 { '0' } else if d == 1 { '1' } else if d == 2 { '2' } else if d == 3 { '3' }
    else if d == 4 { '4' } else if d == 5 { '5' } else if d == 6 { '6' } else if d == 7 { '7' }
    else if d == 8 { '8' } else { '9' }
}

/// The decimal digits of `n`, most significant first.
pub open spec fn decimal(n: nat) -> Seq<char>
    decreases n,
{
    if n < 10 {
        seq![digit_char(n)]
    } else {
        decimal(n / 10).push(digit_char(n % 10))
    }
}

/// A decimal text holds no comma.
pub proof fn lemma_decimal_has_no_comma(n: nat)
    ensures
        forall|i: int| 0 <= i < decimal(n).len() ==> #[trigger] decimal(n)[i] != ',',
    decreases n,
{
    if n >= 10 {
        lemma_decimal_has_no_comma(n / 10);
        let p = decimal(n / 10);
        assert forall|i: int| 0 <= i < decimal(n).len() implies #[trigger] decimal(n)[i] != ',' by {
            if i < p.len() {
                assert(decimal(n)[i] == p[i]);
            }
        }
    }
}

/// The decimal text of a signed integer.
pub open spec fn signed_decimal(i: int) -> Seq<char> {
    if i < 0 {
        seq!['-'] + decimal((-i) as nat)
    } else {
        decimal(i as nat)
    }
}

fn digit_of(d: u64) -> (c: char)
    requires
        d < 10,
    ensures
        c == digit_char(d as nat),
{
    if d == 0 { '0' } else if d == 1 { '1' } else if d == 2 { '2' } else if d == 3 { '3' }
    else if d == 4 { '4' } else if d == 5 { '5' } else if d == 6 { '6' } else if d == 7 { '7' }
    else if d == 8 { '8' } else { '9' }
}

/// The decimal text of `n`.
pub fn render_u64(n: u64) -> (r: String)
    ensures
        r@ == decimal(n as nat),
    decreases n,
{
    if n < 10 {
        let mut r = String::new();
        string_push(&mut r, digit_of(n));
        assert(r@ =~= decimal(n as nat));
        r
    } else {
        let mut r = render_u64(n / 10);
        string_push(&mut r, digit_of(n % 10));
        r
    }
}

/// The decimal text of `i`, with a minus sign when negative.
pub fn render_i64(i: i64) -> (r: String)
    ensures
        r@ == signed_decimal(i as int),
{
    if i < 0 {
        let magnitude: u64 = if i == i64::MIN { 0x8000_0000_0000_0000u64 } else { (-i) as u64 };
        let digits = render_u64(magnitude);
        let mut r = String::new();
        string_push(&mut r, '-');
        r.append(digits.as_str());
        assert(r@ =~= seq!['-'] + decimal((-i) as nat));
        r
    } else {
        render_u64(i as u64)
    }
}

} // verus!

verus! {

/// Whether `pattern` is a regular expression that the `regex` crate compiles
/// (`Regex::new(pattern)` returns `Ok`).
pub uninterp spec fn regex_compiles(pattern: Seq<char>) -> bool;

/// Whether the compiled `pattern` matches somewhere in `text`
/// (`Regex::is_match`).
pub uninterp spec fn regex_finds(pattern: Seq<char>, text: Seq<char>) -> bool;

/// Compiles `pattern` with the `regex` crate and, when that succeeds, tells
/// whether it matches somewhere in `text` (`Regex::new` then `Regex::is_match`).
#[verifier::external_body]
pub(crate) fn regex_is_match(pattern: &str, text: &str) -> (r: Option<bool>)
    ensures
        r is Some <==> regex_compiles(pattern@),
        r matches Some(b) ==> b == regex_finds(pattern@, text@),
{
    match regex::Regex::new(pattern) {
        Ok(re) => Some(re.is_match(text)),
        Err(_) => None,
    }
}

/// Whether `pattern` compiles as a regular expression.
pub fn regex_valid(pattern: &str) -> (r: bool)
    ensures
        r == regex_compiles(pattern@),
{
    regex_is_match(pattern, "").is_some()
}

} // verus!
