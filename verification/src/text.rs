//! Character-level text operations, each executable function next to the
//! mathematical definition it is proved against.
//!
//! Text is modelled as `Seq<char>`, the view of `str` and `String`.

use vstd::prelude::*;

verus! {

/// The characters that count as white space when text is trimmed.
pub open spec fn is_white_space(c: char) -> bool {
    ||| ('\u{9}' <= c && c <= '\u{d}')
    ||| c == ' '
    ||| c == '\u{85}'
    ||| c == '\u{a0}'
    ||| c == '\u{1680}'
    ||| ('\u{2000}' <= c && c <= '\u{200a}')
    ||| c == '\u{2028}'
    ||| c == '\u{2029}'
    ||| c == '\u{202f}'
    ||| c == '\u{205f}'
    ||| c == '\u{3000}'
}

/// `s` without its leading white space.
pub open spec fn trimmed_start(s: Seq<char>) -> Seq<char>
    decreases s.len(),
{
    if s.len() > 0 && is_white_space(s[0]) {
        trimmed_start(s.skip(1))
    } else {
        s
    }
}

/// `s` without its trailing white space.
pub open spec fn trimmed_end(s: Seq<char>) -> Seq<char>
    decreases s.len(),
{
    if s.len() > 0 && is_white_space(s.last()) {
        trimmed_end(s.drop_last())
    } else {
        s
    }
}

/// `s` without white space at either end.
pub open spec fn trimmed(s: Seq<char>) -> Seq<char> {
    trimmed_end(trimmed_start(s))
}

/// The least index at which `c` occurs in `s`.
pub open spec fn position(s: Seq<char>, c: char) -> Option<int>
    decreases s.len(),
{
    if s.len() == 0 {
        None
    } else if s[0] == c {
        Some(0)
    } else {
        match position(s.skip(1), c) {
            Some(i) => Some(i + 1),
            None => None,
        }
    }
}

/// The pieces of `s` between occurrences of `sep`; there is always at least one piece.
pub open spec fn split_on(s: Seq<char>, sep: char) -> Seq<Seq<char>>
    decreases s.len(),
{
    if s.len() == 0 {
        seq![Seq::<char>::empty()]
    } else {
        let init = split_on(s.drop_last(), sep);
        if s.last() == sep {
            init.push(Seq::<char>::empty())
        } else {
            init.update(init.len() - 1, init.last().push(s.last()))
        }
    }
}

/// The pieces of `s` between occurrences of `sep`, each trimmed at both ends.
pub open spec fn split_trimmed(s: Seq<char>, sep: char) -> Seq<Seq<char>> {
    split_on(s, sep).map_values(|piece: Seq<char>| trimmed(piece))
}

/// The `parts` in order with `sep` between neighbours.
pub open spec fn joined(parts: Seq<Seq<char>>, sep: Seq<char>) -> Seq<char>
    decreases parts.len(),
{
    if parts.len() == 0 {
        Seq::<char>::empty()
    } else if parts.len() == 1 {
        parts[0]
    } else {
        joined(parts.drop_last(), sep) + sep + parts.last()
    }
}

/// The texts that a sequence of strings stands for.
pub open spec fn texts(strings: Seq<String>) -> Seq<Seq<char>> {
    strings.map_values(|s: String| s@)
}

/// Whether `c` is a decimal digit.
pub open spec fn is_digit(c: char) -> bool {
    '0' <= c && c <= '9'
}

/// The value of a decimal digit.
pub open spec fn digit_value(c: char) -> int {
    c as int - '0' as int
}

/// Whether `s` consists of decimal digits.
pub open spec fn all_digits(s: Seq<char>) -> bool {
    forall|i: int| 0 <= i < s.len() ==> is_digit(#[trigger] s[i])
}

/// The number that a sequence of decimal digits denotes.
pub open spec fn digits_value(s: Seq<char>) -> nat
    decreases s.len(),
{
    if s.len() == 0 {
        0
    } else {
        (digits_value(s.drop_last()) * 10 + digit_value(s.last())) as nat
    }
}

/// The part of `s` that must consist of digits: `s` without one leading sign.
pub open spec fn unsigned_part(s: Seq<char>) -> Seq<char> {
    if s.len() > 0 && (s[0] == '-' || s[0] == '+') {
        s.skip(1)
    } else {
        s
    }
}

/// The number that `s` denotes: an optional sign, then decimal digits and nothing else.
pub open spec fn signed_value(s: Seq<char>) -> int {
    if s.len() > 0 && s[0] == '-' {
        -(digits_value(unsigned_part(s)) as int)
    } else {
        digits_value(unsigned_part(s)) as int
    }
}

/// The 32-bit signed integer that `s` denotes, if it denotes one.
pub open spec fn parsed_i32(s: Seq<char>) -> Option<int> {
    if unsigned_part(s).len() > 0 && all_digits(unsigned_part(s)) && i32::MIN <= signed_value(s)
        <= i32::MAX {
        Some(signed_value(s))
    } else {
        None
    }
}

/// `s` without one leading plus sign.
pub open spec fn without_plus(s: Seq<char>) -> Seq<char> {
    if s.len() > 0 && s[0] == '+' {
        s.skip(1)
    } else {
        s
    }
}

/// The 64-bit unsigned integer that `s` denotes, if it denotes one: decimal
/// digits and nothing else, but for a plus sign before them.
pub open spec fn parsed_u64(s: Seq<char>) -> Option<int> {
    let digits = without_plus(s);
    if digits.len() > 0 && all_digits(digits) && digits_value(digits) <= u64::MAX {
        Some(digits_value(digits) as int)
    } else {
        None
    }
}

/// The decimal digit of a value below ten.
pub open spec fn digit_char(d: int) -> char {
    ('0' as int + d) as char
}

/// The decimal digits of `n`, most significant first, without leading zeros.
pub open spec fn decimal_nat(n: nat) -> Seq<char>
    decreases n,
{
    if n < 10 {
        seq![digit_char(n as int)]
    } else {
        decimal_nat(n / 10).push(digit_char((n % 10) as int))
    }
}

/// The decimal rendering of `n`, with a minus sign where it is negative.
pub open spec fn decimal(n: int) -> Seq<char> {
    if n < 0 {
        seq!['-'] + decimal_nat((-n) as nat)
    } else {
        decimal_nat(n as nat)
    }
}

/// `c` with an upper-case ASCII letter replaced by its lower-case form.
pub open spec fn ascii_lowered(c: char) -> char {
    if 'A' <= c && c <= 'Z' {
        (c as int + 32) as char
    } else {
        c
    }
}

/// `s` with every upper-case ASCII letter replaced by its lower-case form.
pub open spec fn lowered(s: Seq<char>) -> Seq<char> {
    s.map_values(|c: char| ascii_lowered(c))
}

/// Whether `a` comes before `b` in the order of a dictionary: character by
/// character, a shorter text before its extensions.
pub open spec fn precedes(a: Seq<char>, b: Seq<char>) -> bool
    decreases a.len(),
{
    if b.len() == 0 {
        false
    } else if a.len() == 0 {
        true
    } else if a[0] != b[0] {
        a[0] < b[0]
    } else {
        precedes(a.skip(1), b.skip(1))
    }
}

/// The least index at which `pattern` occurs in `s`.
pub open spec fn occurrence(s: Seq<char>, pattern: Seq<char>) -> Option<int>
    decreases s.len(),
{
    if pattern.is_prefix_of(s) {
        Some(0)
    } else if s.len() == 0 {
        None
    } else {
        match occurrence(s.skip(1), pattern) {
            Some(i) => Some(i + 1),
            None => None,
        }
    }
}

/// The pieces of `s` between occurrences of `pattern`, found from the left
/// and not overlapping. The pattern is not empty.
pub open spec fn split_on_text(s: Seq<char>, pattern: Seq<char>) -> Seq<Seq<char>>
    decreases s.len(),
{
    match occurrence(s, pattern) {
        Some(i) => if pattern.len() > 0 {
            proof {
                lemma_occurrence(s, pattern);
            }
            seq![s.take(i)] + split_on_text(s.skip(i + pattern.len()), pattern)
        } else {
            seq![s]
        },
        None => seq![s],
    }
}

/// `occurrence` finds the first place at which the pattern stands, and finds
/// one whenever there is any.
pub proof fn lemma_occurrence(s: Seq<char>, pattern: Seq<char>)
    ensures
        match occurrence(s, pattern) {
            Some(i) => 0 <= i && i + pattern.len() <= s.len() && pattern.is_prefix_of(s.skip(i))
                && forall|j: int| 0 <= j < i ==> !pattern.is_prefix_of(#[trigger] s.skip(j)),
            None => forall|j: int| 0 <= j <= s.len() ==> !pattern.is_prefix_of(#[trigger] s.skip(j)),
        },
    decreases s.len(),
{
    assert(s.skip(0) =~= s);
    if !pattern.is_prefix_of(s) && s.len() > 0 {
        lemma_occurrence(s.skip(1), pattern);
        match occurrence(s.skip(1), pattern) {
            Some(i) => {
                assert(s.skip(1).skip(i) =~= s.skip(i + 1));
                assert forall|j: int| 0 <= j < i + 1 implies !pattern.is_prefix_of(
                    #[trigger] s.skip(j),
                ) by {
                    if j > 0 {
                        assert(s.skip(1).skip(j - 1) =~= s.skip(j));
                    }
                }
            },
            None => {
                assert forall|j: int| 0 <= j <= s.len() implies !pattern.is_prefix_of(
                    #[trigger] s.skip(j),
                ) by {
                    if j > 0 {
                        assert(s.skip(1).skip(j - 1) =~= s.skip(j));
                    }
                }
            },
        }
    }
}

/// No text comes before itself.
pub proof fn lemma_precedes_irreflexive(a: Seq<char>)
    ensures
        !precedes(a, a),
    decreases a.len(),
{
    if a.len() > 0 {
        lemma_precedes_irreflexive(a.skip(1));
    }
}

/// What comes before a text comes before everything that the text comes before.
pub proof fn lemma_precedes_transitive(a: Seq<char>, b: Seq<char>, c: Seq<char>)
    requires
        precedes(a, b),
        precedes(b, c),
    ensures
        precedes(a, c),
    decreases a.len(),
{
    if a.len() > 0 && a[0] == b[0] && b[0] == c[0] {
        lemma_precedes_transitive(a.skip(1), b.skip(1), c.skip(1));
    }
}

/// Of two different texts one comes before the other.
pub proof fn lemma_precedes_total(a: Seq<char>, b: Seq<char>)
    ensures
        a == b || precedes(a, b) || precedes(b, a),
        !(precedes(a, b) && precedes(b, a)),
    decreases a.len(),
{
    if a.len() > 0 && b.len() > 0 && a[0] == b[0] {
        lemma_precedes_total(a.skip(1), b.skip(1));
        if a.skip(1) == b.skip(1) {
            assert(a =~= seq![a[0]] + a.skip(1));
            assert(b =~= seq![b[0]] + b.skip(1));
        }
    } else if a.len() == 0 && b.len() == 0 {
        assert(a =~= b);
    }
}

/// Whether `c` is white space.
pub fn is_whitespace(c: char) -> (b: bool)
    ensures
        b == is_white_space(c),
{
    ('\u{9}' <= c && c <= '\u{d}') || c == ' ' || c == '\u{85}' || c == '\u{a0}' || c
        == '\u{1680}' || ('\u{2000}' <= c && c <= '\u{200a}') || c == '\u{2028}' || c
        == '\u{2029}' || c == '\u{202f}' || c == '\u{205f}' || c == '\u{3000}'
}

/// Collects the characters of a string slice.
pub fn to_chars(s: &str) -> (v: Vec<char>)
    ensures
        v@ == s@,
{
    let mut v: Vec<char> = Vec::new();
    for c in it: s.chars()
        invariant
            v@ == it.seq().take(it.index() as int),
            it.seq() == s@,
    {
        v.push(c);
    }
    v
}

/// The number of leading white-space characters.
fn leading_white_space(chars: &Vec<char>) -> (i: usize)
    ensures
        i <= chars.len(),
        trimmed_start(chars@) == chars@.skip(i as int),
{
    let n: usize = chars.len();
    let mut i: usize = 0;
    proof {
        assert(chars@.skip(0) =~= chars@);
    }
    while i < n && is_whitespace(chars[i])
        invariant
            i <= n,
            n == chars.len(),
            trimmed_start(chars@) == trimmed_start(chars@.skip(i as int)),
        decreases n - i,
    {
        proof {
            assert(chars@.skip(i as int).skip(1) =~= chars@.skip(i + 1));
        }
        i += 1;
    }
    i
}

/// The index just past the last character that is no white space, not below `from`.
fn trailing_white_space(chars: &Vec<char>, from: usize) -> (j: usize)
    requires
        from <= chars.len(),
    ensures
        from <= j <= chars.len(),
        trimmed_end(chars@.skip(from as int)) == chars@.subrange(from as int, j as int),
{
    let mut j: usize = chars.len();
    proof {
        assert(chars@.skip(from as int) =~= chars@.subrange(from as int, j as int));
    }
    while j > from && is_whitespace(chars[j - 1])
        invariant
            from <= j <= chars.len(),
            trimmed_end(chars@.skip(from as int)) == trimmed_end(
                chars@.subrange(from as int, j as int),
            ),
        decreases j,
    {
        proof {
            assert(chars@.subrange(from as int, j as int).drop_last() =~= chars@.subrange(
                from as int,
                j - 1,
            ));
        }
        j -= 1;
    }
    j
}

/// `s` without its leading white space.
pub fn trim_start(s: &str) -> (r: &str)
    ensures
        r@ == trimmed_start(s@),
{
    let chars = to_chars(s);
    let i: usize = leading_white_space(&chars);
    proof {
        assert(s@.skip(i as int) =~= s@.subrange(i as int, s@.len() as int));
    }
    s.substring_char(i, chars.len())
}

/// `s` without white space at either end.
pub fn trim(s: &str) -> (r: &str)
    ensures
        r@ == trimmed(s@),
{
    let chars = to_chars(s);
    let i: usize = leading_white_space(&chars);
    let j: usize = trailing_white_space(&chars, i);
    s.substring_char(i, j)
}

/// Trimming at the start leaves a suffix: nothing is added.
pub proof fn lemma_trimmed_start_suffix(s: Seq<char>)
    ensures
        trimmed_start(s).len() <= s.len(),
        trimmed_start(s) == s.skip(s.len() - trimmed_start(s).len()),
        forall|i: int| 0 <= i < s.len() - trimmed_start(s).len() ==> is_white_space(s[i]),
        trimmed_start(s).len() > 0 ==> !is_white_space(trimmed_start(s)[0]),
    decreases s.len(),
{
    if s.len() > 0 && is_white_space(s[0]) {
        lemma_trimmed_start_suffix(s.skip(1));
        let rest = s.skip(1);
        let cut = rest.len() - trimmed_start(rest).len();
        assert(rest.skip(cut) =~= s.skip(cut + 1));
        assert forall|i: int| 0 <= i < s.len() - trimmed_start(s).len() implies is_white_space(
            s[i],
        ) by {
            if i > 0 {
                assert(rest[i - 1] == s[i]);
            }
        }
    } else {
        assert(s.skip(0) =~= s);
    }
}

/// Trimming at the end leaves a prefix: nothing is added.
pub proof fn lemma_trimmed_end_prefix(s: Seq<char>)
    ensures
        trimmed_end(s).len() <= s.len(),
        trimmed_end(s) == s.take(trimmed_end(s).len() as int),
        forall|i: int| trimmed_end(s).len() <= i < s.len() ==> is_white_space(s[i]),
        trimmed_end(s).len() > 0 ==> !is_white_space(trimmed_end(s).last()),
    decreases s.len(),
{
    if s.len() > 0 && is_white_space(s.last()) {
        lemma_trimmed_end_prefix(s.drop_last());
        let init = s.drop_last();
        assert(init.take(trimmed_end(init).len() as int) =~= s.take(trimmed_end(init).len() as int));
        assert forall|i: int| trimmed_end(s).len() <= i < s.len() implies is_white_space(s[i]) by {
            if i < s.len() - 1 {
                assert(init[i] == s[i]);
            }
        }
    } else {
        assert(s.take(s.len() as int) =~= s);
    }
}

/// Trimmed text is a stretch of the text it was trimmed from. It is empty, or
/// begins and ends with a character that is no white space.
pub proof fn lemma_trimmed_stretch(s: Seq<char>) -> (bounds: (int, int))
    ensures
        0 <= bounds.0 <= bounds.1 <= s.len(),
        trimmed(s) == s.subrange(bounds.0, bounds.1),
        trimmed(s).len() > 0 ==> !is_white_space(trimmed(s)[0]) && !is_white_space(
            trimmed(s).last(),
        ),
{
    lemma_trimmed_start_suffix(s);
    let start = trimmed_start(s);
    lemma_trimmed_end_prefix(start);
    let low = s.len() - start.len();
    let high = low + trimmed_end(start).len();
    assert(trimmed(s) =~= s.subrange(low, high));
    if trimmed(s).len() > 0 {
        assert(trimmed(s)[0] == start[0]);
    }
    (low, high)
}

/// Text that neither begins nor ends with white space is its own trimmed form.
pub proof fn lemma_trimmed_fixed(s: Seq<char>)
    requires
        s.len() > 0 ==> !is_white_space(s[0]) && !is_white_space(s.last()),
    ensures
        trimmed(s) == s,
{
}

/// Trimming twice is trimming once.
pub proof fn lemma_trimmed_idempotent(s: Seq<char>)
    ensures
        trimmed(trimmed(s)) == trimmed(s),
{
    lemma_trimmed_stretch(s);
    lemma_trimmed_fixed(trimmed(s));
}

/// Trimming at the start twice is trimming at the start once.
pub proof fn lemma_trimmed_start_idempotent(s: Seq<char>)
    ensures
        trimmed_start(trimmed_start(s)) == trimmed_start(s),
{
    lemma_trimmed_start_suffix(s);
}

/// A character that does not occur in a text does not occur in its trimmed form.
pub proof fn lemma_trimmed_without(s: Seq<char>, c: char)
    requires
        forall|i: int| 0 <= i < s.len() ==> s[i] != c,
    ensures
        forall|i: int| 0 <= i < trimmed(s).len() ==> trimmed(s)[i] != c,
{
    let bounds = lemma_trimmed_stretch(s);
    assert forall|i: int| 0 <= i < trimmed(s).len() implies trimmed(s)[i] != c by {
        assert(trimmed(s)[i] == s[bounds.0 + i]);
    }
}

/// `position` finds the first occurrence, and finds one whenever there is any.
pub proof fn lemma_position(s: Seq<char>, c: char)
    ensures
        match position(s, c) {
            Some(i) => 0 <= i < s.len() && s[i] == c && forall|j: int| 0 <= j < i ==> s[j] != c,
            None => forall|j: int| 0 <= j < s.len() ==> s[j] != c,
        },
    decreases s.len(),
{
    if s.len() > 0 && s[0] != c {
        lemma_position(s.skip(1), c);
        match position(s.skip(1), c) {
            Some(i) => {
                assert forall|j: int| 0 <= j < i + 1 implies s[j] != c by {
                    if j > 0 {
                        assert(s.skip(1)[j - 1] == s[j]);
                    }
                }
            },
            None => {
                assert forall|j: int| 0 <= j < s.len() implies s[j] != c by {
                    if j > 0 {
                        assert(s.skip(1)[j - 1] == s[j]);
                    }
                }
            },
        }
    }
}

/// An index that `lemma_position` describes is the one `position` returns.
pub proof fn lemma_position_is(s: Seq<char>, c: char, i: int)
    requires
        0 <= i < s.len(),
        s[i] == c,
        forall|j: int| 0 <= j < i ==> s[j] != c,
    ensures
        position(s, c) == Some(i),
{
    lemma_position(s, c);
}

/// Where `c` does not occur, `position` finds nothing.
pub proof fn lemma_position_none(s: Seq<char>, c: char)
    requires
        forall|j: int| 0 <= j < s.len() ==> s[j] != c,
    ensures
        position(s, c) is None,
{
    lemma_position(s, c);
}

/// Whether `s` begins with `prefix`.
pub fn starts_with(s: &str, prefix: &str) -> (b: bool)
    ensures
        b == prefix@.is_prefix_of(s@),
{
    let chars = to_chars(s);
    let wanted = to_chars(prefix);
    if wanted.len() > chars.len() {
        return false;
    }
    let mut i: usize = 0;
    while i < wanted.len()
        invariant
            i <= wanted.len() <= chars.len(),
            chars@ == s@,
            wanted@ == prefix@,
            forall|j: int| 0 <= j < i ==> chars@[j] == wanted@[j],
        decreases wanted.len() - i,
    {
        if chars[i] != wanted[i] {
            proof {
                assert(s@.subrange(0, prefix@.len() as int)[i as int] != prefix@[i as int]);
            }
            return false;
        }
        i += 1;
    }
    proof {
        assert(prefix@ =~= s@.subrange(0, prefix@.len() as int));
    }
    true
}

/// What follows `prefix` in `s`, where `s` starts with it.
pub fn strip_prefix<'a>(s: &'a str, prefix: &str) -> (r: Option<&'a str>)
    ensures
        match r {
            Some(rest) => prefix@.is_prefix_of(s@) && rest@ == s@.skip(prefix@.len() as int),
            None => !prefix@.is_prefix_of(s@),
        },
{
    if starts_with(s, prefix) {
        let from: usize = prefix.unicode_len();
        let to: usize = s.unicode_len();
        proof {
            assert(s@.skip(from as int) =~= s@.subrange(from as int, to as int));
        }
        Some(s.substring_char(from, to))
    } else {
        None
    }
}

/// Splits `s` at the first occurrence of `c`, which belongs to neither part.
pub fn split_at_char<'a>(s: &'a str, c: char) -> (r: Option<(&'a str, &'a str)>)
    ensures
        match r {
            Some((before, after)) => position(s@, c) is Some && before@ == s@.take(
                position(s@, c).unwrap(),
            ) && after@ == s@.skip(position(s@, c).unwrap() + 1),
            None => position(s@, c) is None,
        },
{
    let chars = to_chars(s);
    let n: usize = chars.len();
    let mut i: usize = 0;
    while i < n
        invariant
            i <= n,
            n == chars.len(),
            chars@ == s@,
            forall|j: int| 0 <= j < i ==> chars@[j] != c,
        decreases n - i,
    {
        if chars[i] == c {
            proof {
                lemma_position_is(s@, c, i as int);
                assert(s@.take(i as int) =~= s@.subrange(0, i as int));
                assert(s@.skip(i + 1) =~= s@.subrange(i + 1, n as int));
            }
            return Some((s.substring_char(0, i), s.substring_char(i + 1, n)));
        }
        i += 1;
    }
    proof {
        lemma_position_none(s@, c);
    }
    None
}

/// One more string adds its text.
pub proof fn lemma_texts_push(strings: Seq<String>, s: String)
    ensures
        texts(strings.push(s)) == texts(strings).push(s@),
{
    assert(texts(strings.push(s)) =~= texts(strings).push(s@));
}

/// Splits `s` at every `sep` and trims each piece.
pub fn split_trim(s: &str, sep: char) -> (pieces: Vec<String>)
    ensures
        texts(pieces@) == split_trimmed(s@, sep),
{
    let chars = to_chars(s);
    let n: usize = chars.len();
    let mut pieces: Vec<String> = Vec::new();
    // the pieces that are complete, as they are before trimming
    let ghost mut whole: Seq<Seq<char>> = Seq::empty();
    let mut start: usize = 0;
    let mut i: usize = 0;
    proof {
        assert(s@.take(0) =~= Seq::<char>::empty());
        assert(split_on(s@.take(0), sep) =~= whole.push(s@.subrange(0, 0)));
        assert(texts(pieces@) =~= whole.map_values(|piece: Seq<char>| trimmed(piece)));
    }
    while i < n
        invariant
            start <= i <= n,
            n == chars.len(),
            chars@ == s@,
            split_on(s@.take(i as int), sep) == whole.push(s@.subrange(start as int, i as int)),
            texts(pieces@) == whole.map_values(|piece: Seq<char>| trimmed(piece)),
        decreases n - i,
    {
        proof {
            assert(s@.take(i + 1).drop_last() =~= s@.take(i as int));
            assert(s@.take(i + 1).last() == s@[i as int]);
        }
        if chars[i] == sep {
            let piece = trim(s.substring_char(start, i)).to_string();
            proof {
                let cut = s@.subrange(start as int, i as int);
                lemma_texts_push(pieces@, piece);
                assert(whole.push(cut).map_values(|piece: Seq<char>| trimmed(piece))
                    =~= whole.map_values(|piece: Seq<char>| trimmed(piece)).push(trimmed(cut)));
                whole = whole.push(cut);
                assert(s@.subrange(i + 1, i + 1) =~= Seq::<char>::empty());
            }
            pieces.push(piece);
            start = i + 1;
        } else {
            proof {
                assert(s@.subrange(start as int, i + 1) =~= s@.subrange(
                    start as int,
                    i as int,
                ).push(s@[i as int]));
                assert(split_on(s@.take(i + 1), sep) =~= whole.push(
                    s@.subrange(start as int, i + 1),
                ));
            }
        }
        i += 1;
    }
    let piece = trim(s.substring_char(start, n)).to_string();
    proof {
        let cut = s@.subrange(start as int, n as int);
        assert(s@.take(n as int) =~= s@);
        lemma_texts_push(pieces@, piece);
        assert(whole.push(cut).map_values(|piece: Seq<char>| trimmed(piece)) =~= whole.map_values(
            |piece: Seq<char>| trimmed(piece),
        ).push(trimmed(cut)));
    }
    pieces.push(piece);
    pieces
}

/// Concatenates `parts`, with `sep` between neighbours.
pub fn join(parts: &Vec<String>, sep: &str) -> (r: String)
    ensures
        r@ == joined(texts(parts@), sep@),
{
    let mut r = String::new();
    let mut i: usize = 0;
    proof {
        assert(texts(parts@).take(0) =~= Seq::<Seq<char>>::empty());
    }
    while i < parts.len()
        invariant
            i <= parts.len(),
            r@ == joined(texts(parts@).take(i as int), sep@),
        decreases parts.len() - i,
    {
        proof {
            assert(texts(parts@).take(i + 1).drop_last() =~= texts(parts@).take(i as int));
            assert(texts(parts@).take(i + 1).last() == parts@[i as int]@);
        }
        if i > 0 {
            r.append(sep);
        } else {
            proof {
                assert(r@ + parts@[i as int]@ =~= parts@[i as int]@);
            }
        }
        r.append(parts[i].as_str());
        i += 1;
    }
    proof {
        assert(texts(parts@).take(parts@.len() as int) =~= texts(parts@));
    }
    r
}

/// `a` followed by `b`.
pub fn concat2(a: &str, b: &str) -> (r: String)
    ensures
        r@ == a@ + b@,
{
    let mut r = a.to_string();
    r.append(b);
    r
}

/// `a`, `b` and `c` in a row.
pub fn concat3(a: &str, b: &str, c: &str) -> (r: String)
    ensures
        r@ == a@ + b@ + c@,
{
    let mut r = a.to_string();
    r.append(b);
    r.append(c);
    r
}

/// Whether two texts are the same.
pub fn text_equals(a: &str, b: &str) -> (same: bool)
    ensures
        same == (a@ == b@),
{
    let first = to_chars(a);
    let second = to_chars(b);
    if first.len() != second.len() {
        return false;
    }
    let mut i: usize = 0;
    while i < first.len()
        invariant
            i <= first.len(),
            first.len() == second.len(),
            first@ == a@,
            second@ == b@,
            forall|j: int| 0 <= j < i ==> first@[j] == second@[j],
        decreases first.len() - i,
    {
        if first[i] != second[i] {
            return false;
        }
        i += 1;
    }
    proof {
        assert(a@ =~= b@);
    }
    true
}

/// Whether `a` comes before `b` in the order of a dictionary.
pub fn text_precedes(a: &str, b: &str) -> (before: bool)
    ensures
        before == precedes(a@, b@),
{
    let first = to_chars(a);
    let second = to_chars(b);
    let mut i: usize = 0;
    proof {
        assert(a@.skip(0) =~= a@);
        assert(b@.skip(0) =~= b@);
    }
    while i < first.len() && i < second.len()
        invariant
            i <= first.len(),
            i <= second.len(),
            first@ == a@,
            second@ == b@,
            precedes(a@, b@) == precedes(a@.skip(i as int), b@.skip(i as int)),
        decreases first.len() - i,
    {
        if first[i] != second[i] {
            return first[i] < second[i];
        }
        proof {
            assert(a@.skip(i as int).skip(1) =~= a@.skip(i + 1));
            assert(b@.skip(i as int).skip(1) =~= b@.skip(i + 1));
        }
        i += 1;
    }
    i < second.len()
}

/// Splits `s` at the first occurrence of `pattern`, which belongs to neither part.
pub fn split_at_text<'a>(s: &'a str, pattern: &str) -> (r: Option<(&'a str, &'a str)>)
    ensures
        match r {
            Some((before, after)) => occurrence(s@, pattern@) is Some && before@ == s@.take(
                occurrence(s@, pattern@).unwrap(),
            ) && after@ == s@.skip(occurrence(s@, pattern@).unwrap() + pattern@.len()),
            None => occurrence(s@, pattern@) is None,
        },
{
    let chars = to_chars(s);
    let wanted = to_chars(pattern);
    let n: usize = chars.len();
    let m: usize = wanted.len();
    if m > n {
        proof {
            lemma_occurrence(s@, pattern@);
        }
        return None;
    }
    let mut i: usize = 0;
    while i <= n - m
        invariant
            i <= n - m + 1,
            m <= n,
            n == chars.len(),
            m == wanted.len(),
            chars@ == s@,
            wanted@ == pattern@,
            forall|j: int| 0 <= j < i ==> !pattern@.is_prefix_of(#[trigger] s@.skip(j)),
        decreases n - m + 1 - i,
    {
        let mut matched = true;
        let mut k: usize = 0;
        while matched && k < m
            invariant
                k <= m,
                i <= n - m,
                n == chars.len(),
                m == wanted.len(),
                chars@ == s@,
                wanted@ == pattern@,
                matched ==> forall|j: int| 0 <= j < k ==> chars@[i + j] == wanted@[j],
                !matched ==> !pattern@.is_prefix_of(s@.skip(i as int)),
            decreases m - k, matched as int,
        {
            if chars[i + k] != wanted[k] {
                matched = false;
                proof {
                    if pattern@.is_prefix_of(s@.skip(i as int)) {
                        assert(s@.skip(i as int).subrange(0, m as int)[k as int] == chars@[i + k]);
                    }
                }
            } else {
                k += 1;
            }
        }
        if matched {
            proof {
                assert(pattern@ =~= s@.skip(i as int).subrange(0, m as int));
                lemma_occurrence(s@, pattern@);
                assert(s@.take(i as int) =~= s@.subrange(0, i as int));
                assert(s@.skip(i + m) =~= s@.subrange(i + m, n as int));
            }
            return Some((s.substring_char(0, i), s.substring_char(i + m, n)));
        }
        i += 1;
    }
    proof {
        lemma_occurrence(s@, pattern@);
    }
    None
}

/// Splits `s` at every occurrence of `pattern`, found from the left.
pub fn split_text(s: &str, pattern: &str) -> (pieces: Vec<String>)
    requires
        pattern@.len() > 0,
    ensures
        texts(pieces@) == split_on_text(s@, pattern@),
{
    let chars = to_chars(s);
    let wanted = to_chars(pattern);
    let n: usize = chars.len();
    let m: usize = wanted.len();
    let mut pieces: Vec<String> = Vec::new();
    let mut start: usize = 0;
    let mut i: usize = 0;
    proof {
        assert(s@.skip(0) =~= s@);
        assert(texts(pieces@) =~= Seq::<Seq<char>>::empty());
        assert(Seq::<Seq<char>>::empty() + split_on_text(s@, pattern@) =~= split_on_text(
            s@,
            pattern@,
        ));
    }
    while i < n
        invariant
            start <= i <= n,
            n == chars.len(),
            m == wanted.len(),
            m > 0,
            chars@ == s@,
            wanted@ == pattern@,
            split_on_text(s@, pattern@) == texts(pieces@) + split_on_text(
                s@.skip(start as int),
                pattern@,
            ),
            forall|j: int| start <= j < i ==> !pattern@.is_prefix_of(#[trigger] s@.skip(j)),
        decreases n - i,
    {
        let mut matched = m <= n - i;
        let mut k: usize = 0;
        while matched && k < m
            invariant
                k <= m,
                i < n,
                n == chars.len(),
                m == wanted.len(),
                chars@ == s@,
                wanted@ == pattern@,
                matched ==> m <= n - i,
                matched ==> forall|j: int| 0 <= j < k ==> chars@[i + j] == wanted@[j],
                !matched ==> !pattern@.is_prefix_of(s@.skip(i as int)),
            decreases m - k, matched as int,
        {
            if chars[i + k] != wanted[k] {
                matched = false;
                proof {
                    if pattern@.is_prefix_of(s@.skip(i as int)) {
                        assert(s@.skip(i as int).subrange(0, m as int)[k as int] == chars@[i + k]);
                    }
                }
            } else {
                k += 1;
            }
        }
        if matched {
            let ghost rest = s@.skip(start as int);
            let piece = s.substring_char(start, i).to_string();
            let ghost before = pieces@;
            pieces.push(piece);
            proof {
                assert(pattern@ =~= s@.skip(i as int).subrange(0, m as int));
                lemma_occurrence(rest, pattern@);
                assert(rest.skip(i - start) =~= s@.skip(i as int));
                assert forall|j: int| 0 <= j < i - start implies !pattern@.is_prefix_of(
                    #[trigger] rest.skip(j),
                ) by {
                    assert(rest.skip(j) =~= s@.skip(start + j));
                }
                assert(occurrence(rest, pattern@) == Some(i - start));
                assert(rest.take(i - start) =~= s@.subrange(start as int, i as int));
                assert(rest.skip(i - start + m) =~= s@.skip(i + m));
                assert(texts(pieces@) =~= texts(before).push(piece@));
                assert(texts(before) + (seq![piece@] + split_on_text(s@.skip(i + m), pattern@))
                    =~= texts(pieces@) + split_on_text(s@.skip(i + m), pattern@));
            }
            i = i + m;
            start = i;
        } else {
            i += 1;
        }
    }
    let ghost rest = s@.skip(start as int);
    let piece = s.substring_char(start, n).to_string();
    let ghost before = pieces@;
    pieces.push(piece);
    proof {
        lemma_occurrence(rest, pattern@);
        if let Some(at) = occurrence(rest, pattern@) {
            assert(rest.skip(at) =~= s@.skip(start + at));
            assert(!pattern@.is_prefix_of(s@.skip(start + at)));
        }
        assert(rest =~= s@.subrange(start as int, n as int));
        assert(texts(pieces@) =~= texts(before).push(piece@));
        assert(texts(before) + seq![piece@] =~= texts(pieces@));
    }
    pieces
}

/// A sequence of digits denotes at least what any of its prefixes denotes.
pub proof fn lemma_digits_value_prefix(s: Seq<char>, k: int)
    requires
        all_digits(s),
        0 <= k <= s.len(),
    ensures
        digits_value(s.take(k)) <= digits_value(s),
    decreases s.len() - k,
{
    if k == s.len() {
        assert(s.take(k) =~= s);
    } else {
        lemma_digits_value_prefix(s, k + 1);
        assert(s.take(k + 1).drop_last() =~= s.take(k));
        assert(is_digit(s[k]));
    }
}

/// The decimal digits of a number denote the number.
pub proof fn lemma_decimal_nat_denotes(n: nat)
    ensures
        decimal_nat(n).len() > 0,
        all_digits(decimal_nat(n)),
        digits_value(decimal_nat(n)) == n,
    decreases n,
{
    let digits = decimal_nat(n);
    if n < 10 {
        assert(digits.drop_last() =~= Seq::<char>::empty());
        assert(digits.last() == digit_char(n as int));
        assert(digit_value(digit_char(n as int)) == n);
        assert(digits_value(digits.drop_last()) == 0);
    } else {
        lemma_decimal_nat_denotes(n / 10);
        assert(digits.drop_last() =~= decimal_nat(n / 10));
        assert(digits.last() == digit_char((n % 10) as int));
        assert(digit_value(digit_char((n % 10) as int)) == n % 10);
        assert forall|i: int| 0 <= i < digits.len() implies is_digit(#[trigger] digits[i]) by {
            if i < digits.len() - 1 {
                assert(digits[i] == decimal_nat(n / 10)[i]);
            }
        }
    }
}

/// Reading undoes writing: the decimal rendering of a 32-bit signed integer
/// is read as that integer.
pub proof fn law_decimal_is_read_back(n: int)
    requires
        i32::MIN <= n <= i32::MAX,
    ensures
        parsed_i32(decimal(n)) == Some(n),
{
    if n < 0 {
        lemma_decimal_nat_denotes((-n) as nat);
        assert(decimal(n).skip(1) =~= decimal_nat((-n) as nat));
    } else {
        lemma_decimal_nat_denotes(n as nat);
        assert(is_digit(decimal(n)[0]));
    }
}

/// Reads a 32-bit signed integer in decimal notation: an optional sign, then digits only.
pub fn parse_i32(s: &str) -> (r: Option<i32>)
    ensures
        match r {
            Some(n) => parsed_i32(s@) == Some(n as int),
            None => parsed_i32(s@) is None,
        },
{
    let chars = to_chars(s);
    let n: usize = chars.len();
    if n == 0 {
        return None;
    }
    let negative = chars[0] == '-';
    let start: usize = if chars[0] == '-' || chars[0] == '+' {
        1
    } else {
        0
    };
    if start == n {
        return None;
    }
    let ghost digits = unsigned_part(s@);
    proof {
        assert(digits =~= s@.skip(start as int));
        assert(digits.take(0) =~= Seq::<char>::empty());
    }
    let mut acc: i64 = 0;
    let mut i: usize = start;
    while i < n
        invariant
            start <= i <= n,
            n == chars.len(),
            chars@ == s@,
            digits == s@.skip(start as int),
            digits == unsigned_part(s@),
            all_digits(digits.take(i - start)),
            acc == digits_value(digits.take(i - start)),
            0 <= acc <= 2147483648,
        decreases n - i,
    {
        let c = chars[i];
        if !('0' <= c && c <= '9') {
            proof {
                assert(!is_digit(digits[i - start]));
            }
            return None;
        }
        let d: i64 = (c as u32 - '0' as u32) as i64;
        proof {
            assert(digits.take(i - start + 1).drop_last() =~= digits.take(i - start));
            assert(digits.take(i - start + 1).last() == c);
            assert(all_digits(digits.take(i - start + 1))) by {
                assert forall|k: int| 0 <= k < i - start + 1 implies is_digit(
                    #[trigger] digits.take(i - start + 1)[k],
                ) by {
                    if k < i - start {
                        assert(digits.take(i - start)[k] == digits[k]);
                    }
                }
            }
        }
        acc = acc * 10 + d;
        if acc > 2147483648 {
            proof {
                if all_digits(digits) {
                    lemma_digits_value_prefix(digits, i - start + 1);
                }
            }
            return None;
        }
        i += 1;
    }
    proof {
        assert(digits.take(n - start) =~= digits);
    }
    if negative {
        Some((-acc) as i32)
    } else if acc > 2147483647 {
        None
    } else {
        Some(acc as i32)
    }
}

/// Reads a 64-bit unsigned integer in decimal notation: digits only, but for
/// a plus sign before them.
pub fn parse_u64(s: &str) -> (r: Option<u64>)
    ensures
        match r {
            Some(n) => parsed_u64(s@) == Some(n as int),
            None => parsed_u64(s@) is None,
        },
{
    let chars = to_chars(s);
    let n: usize = chars.len();
    if n == 0 {
        return None;
    }
    let start: usize = if chars[0] == '+' {
        1
    } else {
        0
    };
    if start == n {
        return None;
    }
    let ghost digits = s@.skip(start as int);
    proof {
        if start == 0 {
            assert(digits =~= s@);
        }
        assert(digits.take(0) =~= Seq::<char>::empty());
    }
    let mut acc: u128 = 0;
    let mut i: usize = start;
    while i < n
        invariant
            start <= i <= n,
            n == chars.len(),
            chars@ == s@,
            digits == s@.skip(start as int),
            digits == without_plus(s@),
            all_digits(digits.take(i - start)),
            acc == digits_value(digits.take(i - start)),
            acc <= u64::MAX,
        decreases n - i,
    {
        let c = chars[i];
        if !('0' <= c && c <= '9') {
            proof {
                assert(!is_digit(digits[i - start]));
            }
            return None;
        }
        let d: u128 = (c as u32 - '0' as u32) as u128;
        proof {
            assert(digits.take(i - start + 1).drop_last() =~= digits.take(i - start));
            assert(digits.take(i - start + 1).last() == c);
            assert(all_digits(digits.take(i - start + 1))) by {
                assert forall|k: int| 0 <= k < i - start + 1 implies is_digit(
                    #[trigger] digits.take(i - start + 1)[k],
                ) by {
                    if k < i - start {
                        assert(digits.take(i - start)[k] == digits[k]);
                    }
                }
            }
        }
        acc = acc * 10 + d;
        if acc > 0xffff_ffff_ffff_ffff {
            proof {
                if all_digits(digits) {
                    lemma_digits_value_prefix(digits, i - start + 1);
                }
            }
            return None;
        }
        i += 1;
    }
    proof {
        assert(digits.take(n - start) =~= digits);
    }
    Some(acc as u64)
}

/// The one-character string of a decimal digit.
fn digit_str(d: u8) -> (r: &'static str)
    requires
        d < 10,
    ensures
        r@ == seq![digit_char(d as int)],
{
    proof {
        reveal_strlit("0");
        reveal_strlit("1");
        reveal_strlit("2");
        reveal_strlit("3");
        reveal_strlit("4");
        reveal_strlit("5");
        reveal_strlit("6");
        reveal_strlit("7");
        reveal_strlit("8");
        reveal_strlit("9");
    }
    let r = if d == 0 {
        "0"
    } else if d == 1 {
        "1"
    } else if d == 2 {
        "2"
    } else if d == 3 {
        "3"
    } else if d == 4 {
        "4"
    } else if d == 5 {
        "5"
    } else if d == 6 {
        "6"
    } else if d == 7 {
        "7"
    } else if d == 8 {
        "8"
    } else {
        "9"
    };
    assert(r@ =~= seq![digit_char(d as int)]);
    r
}

/// Writes `n` in decimal notation.
pub fn render_u64(n: u64) -> (r: String)
    ensures
        r@ == decimal_nat(n as nat),
{
    render_u128(n as u128)
}

/// Writes `n` in decimal notation.
pub fn render_u128(n: u128) -> (r: String)
    ensures
        r@ == decimal_nat(n as nat),
{
    let mut magnitude: u128 = n;
    // the digits below the remaining magnitude, least significant first
    let mut low: Vec<u8> = Vec::new();
    let ghost mut tail: Seq<char> = Seq::empty();
    while magnitude >= 10
        invariant
            decimal_nat(n as nat) == decimal_nat(magnitude as nat) + tail,
            low@.len() == tail.len(),
            forall|k: int|
                0 <= k < low@.len() ==> low@[k] < 10 && tail[tail.len() - 1 - k] == digit_char(
                    low@[k] as int,
                ),
        decreases magnitude,
    {
        let d: u8 = (magnitude % 10) as u8;
        proof {
            let ghost next = seq![digit_char(d as int)] + tail;
            assert(decimal_nat(magnitude as nat) == decimal_nat((magnitude / 10) as nat).push(
                digit_char(d as int),
            ));
            assert(decimal_nat(n as nat) =~= decimal_nat((magnitude / 10) as nat) + next);
            tail = next;
        }
        low.push(d);
        magnitude = magnitude / 10;
    }
    let mut r = digit_str(magnitude as u8).to_string();
    let ghost head = r@;
    let mut k: usize = low.len();
    proof {
        assert(head + tail.take(0) =~= head);
    }
    while k > 0
        invariant
            k <= low@.len(),
            low@.len() == tail.len(),
            forall|j: int|
                0 <= j < low@.len() ==> low@[j] < 10 && tail[tail.len() - 1 - j] == digit_char(
                    low@[j] as int,
                ),
            r@ == head + tail.take(tail.len() - k),
        decreases k,
    {
        k -= 1;
        r.append(digit_str(low[k]));
        proof {
            assert(tail.take(tail.len() - k) =~= tail.take(tail.len() - (k + 1)).push(
                tail[tail.len() - 1 - k],
            ));
        }
    }
    proof {
        assert(tail.take(tail.len() as int) =~= tail);
    }
    r
}

/// Writes `n` in decimal notation, with a minus sign where it is negative.
pub fn render_i32(n: i32) -> (r: String)
    ensures
        r@ == decimal(n as int),
{
    if n < 0 {
        proof {
            reveal_strlit("-");
        }
        concat2("-", render_u64((-(n as i64)) as u64).as_str())
    } else {
        render_u64(n as u64)
    }
}

fn ascii_lower(c: char) -> (r: char)
    ensures
        r == ascii_lowered(c),
{
    if 'A' <= c && c <= 'Z' {
        ((c as u8) + 32) as char
    } else {
        c
    }
}

/// Whether two texts are the same but for the case of their ASCII letters.
pub fn same_lowered(a: &str, b: &str) -> (same: bool)
    ensures
        same == (lowered(a@) == lowered(b@)),
{
    let first = to_chars(a);
    let second = to_chars(b);
    if first.len() != second.len() {
        proof {
            assert(lowered(a@).len() != lowered(b@).len());
        }
        return false;
    }
    let mut i: usize = 0;
    while i < first.len()
        invariant
            i <= first.len(),
            first.len() == second.len(),
            first@ == a@,
            second@ == b@,
            forall|j: int| 0 <= j < i ==> ascii_lowered(first@[j]) == ascii_lowered(second@[j]),
        decreases first.len() - i,
    {
        if ascii_lower(first[i]) != ascii_lower(second[i]) {
            proof {
                assert(lowered(a@)[i as int] != lowered(b@)[i as int]);
            }
            return false;
        }
        i += 1;
    }
    proof {
        assert(lowered(a@) =~= lowered(b@));
    }
    true
}

/// Whether `s` is `word` once its upper-case ASCII letters are lowered.
pub fn lowered_equals(s: &str, word: &str) -> (b: bool)
    ensures
        b == (lowered(s@) == word@),
{
    let chars = to_chars(s);
    let wanted = to_chars(word);
    if chars.len() != wanted.len() {
        return false;
    }
    let mut i: usize = 0;
    while i < chars.len()
        invariant
            i <= chars.len(),
            chars.len() == wanted.len(),
            chars@ == s@,
            wanted@ == word@,
            forall|j: int| 0 <= j < i ==> ascii_lowered(chars@[j]) == wanted@[j],
        decreases chars.len() - i,
    {
        if ascii_lower(chars[i]) != wanted[i] {
            proof {
                assert(lowered(s@)[i as int] != word@[i as int]);
            }
            return false;
        }
        i += 1;
    }
    proof {
        assert(lowered(s@) =~= word@);
    }
    true
}

} // verus!
