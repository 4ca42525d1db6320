//! Text building blocks: reading a string character by character, column
//! names made safe to splice into a query, and decimal numerals.

use vstd::prelude::*;

verus! {

/// `String::push`: the string afterwards is the string before with `c`
/// appended.
pub assume_specification[ String::push ](s: &mut String, c: char)
    ensures
        final(s)@ == old(s)@.push(c),
;

/// What `str::to_lowercase` makes of a text.
pub uninterp spec fn lowercased(text: Seq<char>) -> Seq<char>;

/// `str::to_lowercase`: the lowercase equivalent of the text, a function of
/// the text alone.
#[verifier::external_body]
pub(crate) fn lowercase(text: &str) -> (r: String)
    ensures
        r@ == lowercased(text@),
{
    text.to_lowercase()
}

/// The characters of `s`, in order.
pub fn chars_of(s: &str) -> (r: Vec<char>)
    ensures
        r@ == s@,
{
    let mut out: Vec<char> = Vec::new();
    for c in it: s.chars()
        invariant
            out@ == it.seq().take(it.index() as int),
            it.seq() == s@,
    {
        out.push(c);
    }
    out
}

/// The string made of `chars`, in order.
pub fn text_of(chars: &Vec<char>) -> (r: String)
    ensures
        r@ == chars@,
{
    let mut out = String::new();
    let mut i: usize = 0;
    while i < chars.len()
        invariant
            i <= chars.len(),
            out@ == chars@.take(i as int),
        decreases chars.len() - i,
    {
        out.push(chars[i]);
        assert(chars@.take(i + 1) =~= chars@.take(i as int).push(chars@[i as int]));
        i += 1;
    }
    assert(chars@.take(chars.len() as int) =~= chars@);
    out
}

/// Whether `c` may stand in a column name: an ASCII letter or digit, a dot
/// or an underscore.
pub open spec fn identifier_char(c: char) -> bool {
    ('a' <= c && c <= 'z') || ('A' <= c && c <= 'Z') || ('0' <= c && c <= '9') || c == '.' || c
        == '_'
}

/// Whether every character of `s` may stand in a column name.
pub open spec fn identifier_text(s: Seq<char>) -> bool {
    forall|i: int| 0 <= i < s.len() ==> identifier_char(#[trigger] s[i])
}

/// `s` without the characters that may not stand in a column name.
pub open spec fn sanitized(s: Seq<char>) -> Seq<char> {
    s.filter(|c: char| identifier_char(c))
}

pub fn is_identifier_char(c: char) -> (r: bool)
    ensures
        r == identifier_char(c),
{
    ('a' <= c && c <= 'z') || ('A' <= c && c <= 'Z') || ('0' <= c && c <= '9') || c == '.' || c
        == '_'
}

/// What is left of a sanitized name is safe, and sanitizing it again
/// changes nothing; a name that was safe is left as it was.
pub proof fn lemma_sanitized_safe(s: Seq<char>)
    ensures
        identifier_text(sanitized(s)),
        sanitized(sanitized(s)) == sanitized(s),
        identifier_text(s) ==> sanitized(s) == s,
        sanitized(s).len() <= s.len(),
    decreases s.len(),
{
    let keep = |c: char| identifier_char(c);
    reveal(Seq::filter);
    if s.len() > 0 {
        lemma_sanitized_safe(s.drop_last());
        let front = sanitized(s.drop_last());
        if identifier_char(s.last()) {
            assert(sanitized(s) == front.push(s.last()));
            assert(front.push(s.last()).drop_last() =~= front);
            assert(sanitized(front.push(s.last())) == sanitized(front).push(s.last()));
        }
        if identifier_text(s) {
            assert(identifier_text(s.drop_last()));
            assert(s.drop_last().push(s.last()) =~= s);
        }
    }
}

/// The column name `col` made safe to splice into a query: every character
/// other than an ASCII letter, a digit, a dot or an underscore is removed.
pub fn sanitize_column(col: &str) -> (r: String)
    ensures
        r@ == sanitized(col@),
        identifier_text(r@),
{
    let chars = chars_of(col);
    let mut out = String::new();
    let mut i: usize = 0;
    while i < chars.len()
        invariant
            i <= chars.len(),
            out@ == sanitized(chars@.take(i as int)),
        decreases chars.len() - i,
    {
        proof {
            assert(chars@.take(i + 1).drop_last() =~= chars@.take(i as int));
            reveal(Seq::filter);
        }
        if is_identifier_char(chars[i]) {
            out.push(chars[i]);
        }
        i += 1;
    }
    proof {
        assert(chars@.take(chars.len() as int) =~= chars@);
        lemma_sanitized_safe(col@);
    }
    out
}

/// The character of a decimal digit.
pub open spec fn digit_char(d: nat) -> char
    recommends
        d < 10,
{
    if d == 0 {
        '0'
    } else if d == 1 {
        '1'
    } else if d == 2 {
        '2'
    } else if d == 3 {
        '3'
    } else if d == 4 {
        '4'
    } else if d == 5 {
        '5'
    } else if d == 6 {
        '6'
    } else if d == 7 {
        '7'
    } else if d == 8 {
        '8'
    } else {
        '9'
    }
}

/// The decimal numeral of `n`, without leading zeros.
pub open spec fn decimal_text(n: nat) -> Seq<char>
    decreases n,
{
    if n < 10 {
        seq![digit_char(n)]
    } else {
        decimal_text(n / 10).push(digit_char(n % 10))
    }
}

fn digit_of(d: u64) -> (r: char)
    requires
        d < 10,
    ensures
        r == digit_char(d as nat),
{
    if d == 0 {
        '0'
    } else if d == 1 {
        '1'
    } else if d == 2 {
        '2'
    } else if d == 3 {
        '3'
    } else if d == 4 {
        '4'
    } else if d == 5 {
        '5'
    } else if d == 6 {
        '6'
    } else if d == 7 {
        '7'
    } else if d == 8 {
        '8'
    } else {
        '9'
    }
}

/// Appends the decimal numeral of `n` to `out`.
pub fn push_decimal(out: &mut String, n: u64)
    ensures
        final(out)@ == old(out)@ + decimal_text(n as nat),
    decreases n,
{
    if n >= 10 {
        push_decimal(out, n / 10);
    }
    out.push(digit_of(n % 10));
    proof {
        if n >= 10 {
            assert(final(out)@ =~= old(out)@ + decimal_text(n as nat));
        } else {
            assert(final(out)@ =~= old(out)@ + decimal_text(n as nat));
        }
    }
}

/// The texts of a list of strings, in order.
pub open spec fn texts(strings: Seq<String>) -> Seq<Seq<char>> {
    strings.map_values(|s: String| s@)
}

/// The parts in order, with `separator` between each two.
pub open spec fn joined(parts: Seq<Seq<char>>, separator: Seq<char>) -> Seq<char>
    decreases parts.len(),
{
    if parts.len() == 0 {
        Seq::empty()
    } else if parts.len() == 1 {
        parts[0]
    } else {
        joined(parts.drop_last(), separator) + separator + parts.last()
    }
}

/// The strings of `parts` in order, with `separator` between each two.
pub fn join(parts: &Vec<String>, separator: &str) -> (r: String)
    ensures
        r@ == joined(texts(parts@), separator@),
{
    let mut out = String::new();
    let mut i: usize = 0;
    let ghost all = texts(parts@);
    assert(all.take(0) =~= Seq::<Seq<char>>::empty());
    while i < parts.len()
        invariant
            i <= parts.len(),
            all == texts(parts@),
            out@ == joined(all.take(i as int), separator@),
        decreases parts.len() - i,
    {
        proof {
            assert(all.take(i + 1).drop_last() =~= all.take(i as int));
            assert(all.take(i + 1).last() == parts@[i as int]@);
        }
        if i > 0 {
            out.append(separator);
        } else {
            assert(out@ + parts@[i as int]@ =~= parts@[i as int]@);
        }
        out.append(parts[i].as_str());
        i += 1;
    }
    assert(all.take(i as int) =~= all);
    out
}

/// Whether a character is whitespace: whether it has the Unicode property
/// `White_Space`.
pub open spec fn whitespace(c: char) -> bool {
    ('\u{9}' <= c && c <= '\u{d}') || c == ' ' || c == '\u{85}' || c == '\u{a0}' || c
        == '\u{1680}' || ('\u{2000}' <= c && c <= '\u{200a}') || c == '\u{2028}' || c
        == '\u{2029}' || c == '\u{202f}' || c == '\u{205f}' || c == '\u{3000}'
}

/// Whether `c` is whitespace.
pub fn is_whitespace(c: char) -> (r: bool)
    ensures
        r == whitespace(c),
{
    ('\u{9}' <= c && c <= '\u{d}') || c == ' ' || c == '\u{85}' || c == '\u{a0}' || c
        == '\u{1680}' || ('\u{2000}' <= c && c <= '\u{200a}') || c == '\u{2028}' || c
        == '\u{2029}' || c == '\u{202f}' || c == '\u{205f}' || c == '\u{3000}'
}

/// `s` without the whitespace at its end.
pub open spec fn without_trailing_space(s: Seq<char>) -> Seq<char>
    decreases s.len(),
{
    if s.len() > 0 && whitespace(s.last()) {
        without_trailing_space(s.drop_last())
    } else {
        s
    }
}

/// `s` without the whitespace at its start.
pub open spec fn without_leading_space(s: Seq<char>) -> Seq<char>
    decreases s.len(),
{
    if s.len() > 0 && whitespace(s[0]) {
        without_leading_space(s.drop_first())
    } else {
        s
    }
}

/// `s` without the whitespace at its ends.
pub open spec fn trimmed(s: Seq<char>) -> Seq<char> {
    without_leading_space(without_trailing_space(s))
}

/// What is trimmed neither starts nor ends with whitespace, and trimming
/// it again changes nothing.
pub proof fn lemma_trimmed(s: Seq<char>)
    ensures
        trimmed(s).len() <= s.len(),
        trimmed(s).len() > 0 ==> !whitespace(trimmed(s)[0]) && !whitespace(trimmed(s).last()),
        trimmed(trimmed(s)) == trimmed(s),
{
    lemma_trailing(s);
    let inner = without_trailing_space(s);
    lemma_leading(inner);
    let t = trimmed(s);
    if t.len() > 0 {
        lemma_leading_keeps_last(inner);
    }
    lemma_trailing(t);
    lemma_leading(t);
}

proof fn lemma_trailing(s: Seq<char>)
    ensures
        without_trailing_space(s).len() <= s.len(),
        without_trailing_space(s).len() > 0 ==> !whitespace(without_trailing_space(s).last()),
        s.len() > 0 && !whitespace(s.last()) ==> without_trailing_space(s) == s,
        s.len() == 0 ==> without_trailing_space(s) == s,
    decreases s.len(),
{
    if s.len() > 0 && whitespace(s.last()) {
        lemma_trailing(s.drop_last());
    }
}

proof fn lemma_leading(s: Seq<char>)
    ensures
        without_leading_space(s).len() <= s.len(),
        without_leading_space(s).len() > 0 ==> !whitespace(without_leading_space(s)[0]),
        s.len() > 0 && !whitespace(s[0]) ==> without_leading_space(s) == s,
        s.len() == 0 ==> without_leading_space(s) == s,
    decreases s.len(),
{
    if s.len() > 0 && whitespace(s[0]) {
        lemma_leading(s.drop_first());
    }
}

proof fn lemma_leading_keeps_last(s: Seq<char>)
    ensures
        without_leading_space(s).len() > 0 ==> s.len() > 0 && without_leading_space(s).last()
            == s.last(),
    decreases s.len(),
{
    if s.len() > 0 && whitespace(s[0]) {
        lemma_leading_keeps_last(s.drop_first());
    }
}

/// `text` without the whitespace at its ends.
pub fn trim(text: &str) -> (r: String)
    ensures
        r@ == trimmed(text@),
{
    let chars = chars_of(text);
    let mut end: usize = chars.len();
    assert(chars@.take(end as int) =~= chars@);
    while end > 0 && is_whitespace(chars[end - 1])
        invariant
            end <= chars.len(),
            without_trailing_space(chars@) == without_trailing_space(chars@.take(end as int)),
        decreases end,
    {
        assert(chars@.take(end as int).drop_last() =~= chars@.take(end - 1));
        end -= 1;
    }
    let ghost inner = chars@.take(end as int);
    assert(without_trailing_space(chars@) == inner);
    let mut start: usize = 0;
    assert(inner.skip(0) =~= inner);
    while start < end && is_whitespace(chars[start])
        invariant
            start <= end <= chars.len(),
            inner == chars@.take(end as int),
            without_leading_space(inner) == without_leading_space(inner.skip(start as int)),
        decreases end - start,
    {
        assert(inner.skip(start as int).drop_first() =~= inner.skip(start + 1));
        assert(inner.skip(start as int)[0] == chars@[start as int]);
        start += 1;
    }
    proof {
        if start < end {
            assert(inner.skip(start as int)[0] == chars@[start as int]);
        }
        assert(without_leading_space(inner) == inner.skip(start as int));
    }
    let mut out = String::new();
    let mut i: usize = start;
    assert(inner.subrange(start as int, start as int) =~= Seq::<char>::empty());
    while i < end
        invariant
            start <= i <= end <= chars.len(),
            inner == chars@.take(end as int),
            out@ == inner.subrange(start as int, i as int),
        decreases end - i,
    {
        out.push(chars[i]);
        assert(inner.subrange(start as int, i + 1) =~= inner.subrange(start as int, i as int).push(
            chars@[i as int],
        ));
        i += 1;
    }
    assert(inner.subrange(start as int, end as int) =~= inner.skip(start as int));
    out
}

} // verus!
