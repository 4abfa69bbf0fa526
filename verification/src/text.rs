//! String operations over the sequence of characters that a string holds.

use vstd::prelude::*;
use vstd::utf8::*;

verus! {

/// `String::push` appends one character.
pub assume_specification[ String::push ](s: &mut String, c: char)
    ensures
        final(s)@ == old(s)@.push(c),
;

/// `String::pop` takes the last character off, and does nothing to an empty string.
pub assume_specification[ String::pop ](s: &mut String) -> (r: Option<char>)
    ensures
        old(s)@.len() == 0 ==> r is None && final(s)@ == old(s)@,
        old(s)@.len() > 0 ==> r == Some(old(s)@.last()) && final(s)@ == old(s)@.drop_last(),
;

/// The characters of a string, in order.
pub fn chars_of(s: &str) -> (r: Vec<char>)
    ensures
        r@ == s@,
{
    let mut out: Vec<char> = Vec::new();
    for c in it: s.chars()
        invariant
            out@ == s@.take(it.index()),
            it.seq() == s@,
    {
        out.push(c);
    }
    assert(s@.take(s@.len() as int) == s@);
    out
}

/// The string made of the characters `from..to`.
pub fn string_of(chars: &Vec<char>, from: usize, to: usize) -> (r: String)
    requires
        from <= to <= chars@.len(),
    ensures
        r@ == chars@.subrange(from as int, to as int),
{
    let mut out = String::new();
    let mut i: usize = from;
    while i < to
        invariant
            from <= i <= to <= chars@.len(),
            out@ == chars@.subrange(from as int, i as int),
        decreases to - i,
    {
        out.push(chars[i]);
        i += 1;
    }
    out
}

/// Whether two strings hold the same characters.
pub fn str_eq(a: &str, b: &str) -> (r: bool)
    ensures
        r == (a@ == b@),
{
    let x = a.as_bytes();
    let y = b.as_bytes();
    if x.len() != y.len() {
        return false;
    }
    let mut i: usize = 0;
    while i < x.len()
        invariant
            x@.len() == y@.len(),
            i <= x@.len(),
            forall|j: int| 0 <= j < i ==> x@[j] == y@[j],
            x@ == encode_utf8(a@),
            y@ == encode_utf8(b@),
        decreases x@.len() - i,
    {
        if x[i] != y[i] {
            return false;
        }
        i += 1;
    }
    proof {
        assert(x@ == y@);
        encode_utf8_decode_utf8(a@);
        encode_utf8_decode_utf8(b@);
    }
    true
}

/// Whether `c` has Unicode's `White_Space` property.
pub open spec fn is_space(c: char) -> bool {
    let n = c as int;
    ||| 9 <= n <= 13
    ||| n == 32
    ||| n == 0x85
    ||| n == 0xa0
    ||| n == 0x1680
    ||| 0x2000 <= n <= 0x200a
    ||| n == 0x2028
    ||| n == 0x2029
    ||| n == 0x202f
    ||| n == 0x205f
    ||| n == 0x3000
}

/// Whether a character is white space.
pub fn is_white_space(c: char) -> (r: bool)
    ensures
        r == is_space(c),
{
    let n: u32 = c as u32;
    (9 <= n && n <= 13) || n == 32 || n == 0x85 || n == 0xa0 || n == 0x1680 || (0x2000 <= n && n
        <= 0x200a) || n == 0x2028 || n == 0x2029 || n == 0x202f || n == 0x205f || n == 0x3000
}

/// `s` without the white space that it begins with.
pub open spec fn trimmed_start(s: Seq<char>) -> Seq<char>
    decreases s.len(),
{
    if s.len() > 0 && is_space(s[0]) {
        trimmed_start(s.drop_first())
    } else {
        s
    }
}

/// `s` without the white space that it ends with.
pub open spec fn trimmed_end(s: Seq<char>) -> Seq<char>
    decreases s.len(),
{
    if s.len() > 0 && is_space(s.last()) {
        trimmed_end(s.drop_last())
    } else {
        s
    }
}

/// `s` without the white space at either end.
pub open spec fn trimmed(s: Seq<char>) -> Seq<char> {
    trimmed_end(trimmed_start(s))
}

/// `s` without the white space at either end.
pub fn trim(s: &str) -> (r: String)
    ensures
        r@ == trimmed(s@),
{
    let chars = chars_of(s);
    let mut i: usize = 0;
    assert(s@.skip(0) == s@);
    while i < chars.len() && is_white_space(chars[i])
        invariant
            chars@ == s@,
            i <= chars@.len(),
            trimmed_start(s@) == trimmed_start(s@.skip(i as int)),
        decreases chars@.len() - i,
    {
        assert(s@.skip(i as int).drop_first() == s@.skip(i + 1));
        i += 1;
    }
    let ghost start = s@.skip(i as int);
    assert(trimmed_start(s@) == start);
    let mut j: usize = chars.len();
    assert(start == s@.subrange(i as int, j as int));
    while j > i && is_white_space(chars[j - 1])
        invariant
            chars@ == s@,
            i <= j <= chars@.len(),
            trimmed_end(start) == trimmed_end(s@.subrange(i as int, j as int)),
        decreases j,
    {
        assert(s@.subrange(i as int, j as int).drop_last() == s@.subrange(i as int, j - 1));
        j -= 1;
    }
    string_of(&chars, i, j)
}

/// `s` without the occurrences of `c` that it ends with.
pub open spec fn without_trailing(s: Seq<char>, c: char) -> Seq<char>
    decreases s.len(),
{
    if s.len() > 0 && s.last() == c {
        without_trailing(s.drop_last(), c)
    } else {
        s
    }
}

/// `s` without the occurrences of `c` that it ends with.
pub fn trim_end_matches(s: &str, c: char) -> (r: String)
    ensures
        r@ == without_trailing(s@, c),
{
    let chars = chars_of(s);
    let mut j: usize = chars.len();
    assert(s@.take(j as int) == s@);
    while j > 0 && chars[j - 1] == c
        invariant
            chars@ == s@,
            j <= chars@.len(),
            without_trailing(s@, c) == without_trailing(s@.take(j as int), c),
        decreases j,
    {
        assert(s@.take(j as int).drop_last() == s@.take(j - 1));
        j -= 1;
    }
    string_of(&chars, 0, j)
}

/// Where `c` first occurs in `s`, or the length of `s`.
pub open spec fn first_index(s: Seq<char>, c: char) -> int
    decreases s.len(),
{
    if s.len() == 0 || s[0] == c {
        0
    } else {
        1 + first_index(s.drop_first(), c)
    }
}

/// The first index lies in range, holds the character if it is not the length, and nothing
/// before it does.
pub proof fn lemma_first_index(s: Seq<char>, c: char)
    ensures
        0 <= first_index(s, c) <= s.len(),
        first_index(s, c) < s.len() ==> s[first_index(s, c)] == c,
        forall|i: int| 0 <= i < first_index(s, c) ==> s[i] != c,
    decreases s.len(),
{
    if s.len() > 0 && s[0] != c {
        lemma_first_index(s.drop_first(), c);
        assert forall|i: int| 0 <= i < first_index(s, c) implies s[i] != c by {
            if i > 0 {
                assert(s[i] == s.drop_first()[i - 1]);
            }
        }
    }
}

/// What stands before the first `c`, or all of `s`.
pub open spec fn before(s: Seq<char>, c: char) -> Seq<char> {
    s.take(first_index(s, c))
}

/// Where `c` first occurs in `chars` from `start` on, or the length.
fn index_from(chars: &Vec<char>, start: usize, c: char) -> (r: usize)
    requires
        start <= chars@.len(),
    ensures
        start <= r <= chars@.len(),
        r == start + first_index(chars@.skip(start as int), c),
{
    let mut i: usize = start;
    while i < chars.len() && chars[i] != c
        invariant
            start <= i <= chars@.len(),
            start + first_index(chars@.skip(start as int), c) == i + first_index(
                chars@.skip(i as int),
                c,
            ),
        decreases chars@.len() - i,
    {
        assert(chars@.skip(i as int).drop_first() == chars@.skip(i + 1));
        i += 1;
    }
    i
}

/// What stands before the first `c`, or all of `s`.
pub fn split_first(s: &str, c: char) -> (r: String)
    ensures
        r@ == before(s@, c),
{
    let chars = chars_of(s);
    let i = index_from(&chars, 0, c);
    assert(chars@.skip(0) == chars@);
    assert(chars@.subrange(0, i as int) == chars@.take(i as int));
    string_of(&chars, 0, i)
}

/// The code of `c` with an ASCII capital letter taken as its small letter.
pub open spec fn ascii_fold(c: char) -> int {
    if 65 <= c as int <= 90 {
        c as int + 32
    } else {
        c as int
    }
}

/// Whether two texts are the same but for the case of their ASCII letters.
pub open spec fn same_but_ascii_case(a: Seq<char>, b: Seq<char>) -> bool {
    &&& a.len() == b.len()
    &&& forall|i: int| 0 <= i < a.len() ==> ascii_fold(#[trigger] a[i]) == ascii_fold(b[i])
}

fn fold(c: char) -> (r: u32)
    ensures
        r == ascii_fold(c),
{
    let n: u32 = c as u32;
    if 65 <= n && n <= 90 {
        n + 32
    } else {
        n
    }
}

/// Whether two strings are the same but for the case of their ASCII letters.
pub fn eq_ignore_ascii_case(a: &str, b: &str) -> (r: bool)
    ensures
        r == same_but_ascii_case(a@, b@),
{
    let x = chars_of(a);
    let y = chars_of(b);
    if x.len() != y.len() {
        return false;
    }
    let mut i: usize = 0;
    while i < x.len()
        invariant
            x@ == a@,
            y@ == b@,
            x@.len() == y@.len(),
            i <= x@.len(),
            forall|j: int| 0 <= j < i ==> ascii_fold(#[trigger] a@[j]) == ascii_fold(b@[j]),
        decreases x@.len() - i,
    {
        if fold(x[i]) != fold(y[i]) {
            assert(ascii_fold(a@[i as int]) != ascii_fold(b@[i as int]));
            return false;
        }
        i += 1;
    }
    true
}

/// Whether `part` stands in `whole` from `at` on.
pub open spec fn stands_at(whole: Seq<char>, part: Seq<char>, at: int) -> bool {
    0 <= at && at + part.len() <= whole.len() && whole.subrange(at, at + part.len()) == part
}

/// Whether `part` stands somewhere in `whole`.
pub open spec fn has_part(whole: Seq<char>, part: Seq<char>) -> bool {
    exists|at: int| stands_at(whole, part, at)
}

fn part_at(whole: &Vec<char>, part: &Vec<char>, at: usize) -> (r: bool)
    requires
        at + part@.len() <= whole@.len(),
    ensures
        r == stands_at(whole@, part@, at as int),
{
    let end: usize = whole.len();
    let mut i: usize = 0;
    while i < part.len()
        invariant
            i <= part@.len(),
            at + part@.len() <= whole@.len() == end,
            forall|j: int| 0 <= j < i ==> whole@[at + j] == #[trigger] part@[j],
        decreases part@.len() - i,
    {
        if whole[at + i] != part[i] {
            assert(whole@.subrange(at as int, at + part@.len())[i as int] != part@[i as int]);
            return false;
        }
        i += 1;
    }
    assert(whole@.subrange(at as int, at + part@.len()) =~= part@);
    true
}

/// Whether `part` stands somewhere in `whole`.
pub fn contains(whole: &str, part: &str) -> (r: bool)
    ensures
        r == has_part(whole@, part@),
{
    let x = chars_of(whole);
    let y = chars_of(part);
    if y.len() > x.len() {
        return false;
    }
    let mut at: usize = 0;
    while at <= x.len() - y.len()
        invariant
            x@ == whole@,
            y@ == part@,
            y@.len() <= x@.len(),
            at <= x@.len() - y@.len() + 1,
            forall|j: int| 0 <= j < at ==> !stands_at(whole@, part@, j),
        decreases x@.len() - at,
    {
        if part_at(&x, &y, at) {
            return true;
        }
        if at == x.len() - y.len() {
            return false;
        }
        at += 1;
    }
    false
}

/// Whether `s` begins with `head`.
pub open spec fn begins_with(s: Seq<char>, head: Seq<char>) -> bool {
    head.is_prefix_of(s)
}

/// Whether `s` begins with `head`.
pub fn starts_with(s: &str, head: &str) -> (r: bool)
    ensures
        r == begins_with(s@, head@),
{
    let x = chars_of(s);
    let y = chars_of(head);
    if y.len() > x.len() {
        return false;
    }
    part_at(&x, &y, 0)
}

/// `s` without the carriage return that it ends with, if it does.
pub open spec fn without_return(s: Seq<char>) -> Seq<char> {
    if s.len() > 0 && s.last() == '\r' {
        s.drop_last()
    } else {
        s
    }
}

/// The lines of `s`: a line ends in a newline or in a carriage return and a newline, which are
/// no part of it, and the last line may go without.
pub open spec fn lines_of(s: Seq<char>) -> Seq<Seq<char>>
    decreases s.len(),
    via lines_of_shrinks
{
    let end = first_index(s, '\n');
    if s.len() == 0 {
        seq![]
    } else if end == s.len() {
        seq![s]
    } else {
        seq![without_return(s.take(end))] + lines_of(s.skip(end + 1))
    }
}

#[via_fn]
proof fn lines_of_shrinks(s: Seq<char>) {
    lemma_first_index(s, '\n');
}

/// What a list of strings holds.
pub open spec fn texts(list: Seq<String>) -> Seq<Seq<char>> {
    list.map_values(|s: String| s@)
}

/// The lines of a text, without their line endings.
pub fn lines(s: &str) -> (r: Vec<String>)
    ensures
        texts(r@) == lines_of(s@),
{
    let chars = chars_of(s);
    let mut out: Vec<String> = Vec::new();
    let mut i: usize = 0;
    assert(s@.skip(0) == s@);
    assert(texts(out@) + lines_of(s@) == lines_of(s@));
    while i < chars.len()
        invariant
            chars@ == s@,
            i <= chars@.len(),
            texts(out@) + lines_of(s@.skip(i as int)) == lines_of(s@),
        decreases chars@.len() - i,
    {
        let ghost rest = s@.skip(i as int);
        let ghost seen = texts(out@);
        let end = index_from(&chars, i, '\n');
        let ghost line = rest.take(end - i);
        assert(line == s@.subrange(i as int, end as int));
        if end == chars.len() {
            out.push(string_of(&chars, i, end));
            assert(texts(out@) == seen.push(rest));
            assert(s@.skip(end as int) == Seq::<char>::empty());
            i = end;
        } else {
            let mut last: usize = end;
            if end > i && chars[end - 1] == '\r' {
                last = end - 1;
            }
            assert(s@.subrange(i as int, last as int) == without_return(line));
            out.push(string_of(&chars, i, last));
            assert(texts(out@) == seen.push(without_return(line)));
            assert(rest.skip(end - i + 1) == s@.skip(end + 1));
            assert(lines_of(rest) == seq![without_return(line)] + lines_of(s@.skip(end + 1)));
            assert(texts(out@) + lines_of(s@.skip(end + 1)) == seen + lines_of(rest));
            i = end + 1;
        }
    }
    assert(s@.skip(i as int) == Seq::<char>::empty());
    assert(texts(out@) + lines_of(s@.skip(i as int)) == texts(out@));
    out
}

/// The items of `list` with `separator` between each two.
pub open spec fn joined(list: Seq<Seq<char>>, separator: Seq<char>) -> Seq<char>
    decreases list.len(),
{
    if list.len() == 0 {
        seq![]
    } else if list.len() == 1 {
        list[0]
    } else {
        joined(list.drop_last(), separator) + separator + list.last()
    }
}

/// The items of a list with a separator between each two.
pub fn join(list: &Vec<String>, separator: &str) -> (r: String)
    ensures
        r@ == joined(texts(list@), separator@),
{
    let mut out = String::new();
    let mut i: usize = 0;
    while i < list.len()
        invariant
            i <= list@.len(),
            out@ == joined(texts(list@).take(i as int), separator@),
        decreases list@.len() - i,
    {
        if i > 0 {
            out.append(separator);
        }
        out.append(list[i].as_str());
        assert(texts(list@).take(i + 1).drop_last() == texts(list@).take(i as int));
        i += 1;
    }
    assert(texts(list@).take(list@.len() as int) == texts(list@));
    out
}

/// What `str::to_lowercase` gives for a text.
pub uninterp spec fn lowercase_of(s: Seq<char>) -> Seq<char>;

/// The text with each ASCII capital letter made small.
pub open spec fn ascii_lowercase(s: Seq<char>) -> Seq<char> {
    s.map_values(|c: char| ascii_fold(c) as char)
}

/// `str::to_lowercase`, the lowercase equivalent of a text in Unicode's terms. Of an ASCII text
/// it is claimed that the capital letters alone change, each into its small letter; of other
/// texts, that the result depends on the text alone.
#[verifier::external_body]
pub(crate) fn to_lowercase(s: &str) -> (r: String)
    ensures
        r@ == lowercase_of(s@),
        is_ascii_chars(s@) ==> r@ == ascii_lowercase(s@),
{
    s.to_lowercase()
}

/// What `String::from_utf8_lossy` gives for bytes.
pub uninterp spec fn lossy_text(bytes: Seq<u8>) -> Seq<char>;

/// `String::from_utf8_lossy`. It is claimed that valid UTF-8 gives the characters that it
/// encodes; of other bytes, that the result depends on them alone.
#[verifier::external_body]
pub(crate) fn from_utf8_lossy(bytes: &[u8]) -> (r: String)
    ensures
        r@ == lossy_text(bytes@),
        valid_utf8(bytes@) ==> r@ == decode_utf8(bytes@),
{
    String::from_utf8_lossy(bytes).into_owned()
}

/// The lexicographic order of bytes, strictly.
pub open spec fn bytes_less(a: Seq<u8>, b: Seq<u8>) -> bool
    decreases a.len(),
{
    if b.len() == 0 {
        false
    } else if a.len() == 0 {
        true
    } else if a[0] != b[0] {
        a[0] < b[0]
    } else {
        bytes_less(a.drop_first(), b.drop_first())
    }
}

/// The order of strings, strictly: lexicographic by their UTF-8 bytes.
pub open spec fn text_less(a: Seq<char>, b: Seq<char>) -> bool {
    bytes_less(encode_utf8(a), encode_utf8(b))
}

proof fn lemma_bytes_less_irreflexive(a: Seq<u8>)
    ensures
        !bytes_less(a, a),
    decreases a.len(),
{
    if a.len() > 0 {
        lemma_bytes_less_irreflexive(a.drop_first());
    }
}

proof fn lemma_bytes_less_transitive(a: Seq<u8>, b: Seq<u8>, c: Seq<u8>)
    requires
        bytes_less(a, b),
        bytes_less(b, c),
    ensures
        bytes_less(a, c),
    decreases a.len(),
{
    if a.len() > 0 && b.len() > 0 && c.len() > 0 && a[0] == b[0] && b[0] == c[0] {
        lemma_bytes_less_transitive(a.drop_first(), b.drop_first(), c.drop_first());
    }
}

proof fn lemma_bytes_less_total(a: Seq<u8>, b: Seq<u8>)
    ensures
        a == b || bytes_less(a, b) || bytes_less(b, a),
    decreases a.len(),
{
    if a.len() > 0 && b.len() > 0 && a[0] == b[0] {
        lemma_bytes_less_total(a.drop_first(), b.drop_first());
        if a.drop_first() == b.drop_first() {
            assert(a == seq![a[0]] + a.drop_first());
            assert(b == seq![b[0]] + b.drop_first());
        }
    } else if a.len() == 0 && b.len() == 0 {
        assert(a == b);
    }
}

/// No text comes before itself.
pub proof fn lemma_text_less_irreflexive(a: Seq<char>)
    ensures
        !text_less(a, a),
{
    lemma_bytes_less_irreflexive(encode_utf8(a));
}

/// The order of texts is transitive.
pub proof fn lemma_text_less_transitive(a: Seq<char>, b: Seq<char>, c: Seq<char>)
    requires
        text_less(a, b),
        text_less(b, c),
    ensures
        text_less(a, c),
{
    lemma_bytes_less_transitive(encode_utf8(a), encode_utf8(b), encode_utf8(c));
}

/// Of two different texts one comes before the other.
pub proof fn lemma_text_less_total(a: Seq<char>, b: Seq<char>)
    ensures
        a == b || text_less(a, b) || text_less(b, a),
{
    lemma_bytes_less_total(encode_utf8(a), encode_utf8(b));
    encode_utf8_decode_utf8(a);
    encode_utf8_decode_utf8(b);
}

/// Whether one string comes before another.
pub fn less(a: &str, b: &str) -> (r: bool)
    ensures
        r == text_less(a@, b@),
{
    let x = a.as_bytes();
    let y = b.as_bytes();
    let mut i: usize = 0;
    assert(x@.skip(0) == x@);
    assert(y@.skip(0) == y@);
    while i < x.len() && i < y.len()
        invariant
            i <= x@.len(),
            i <= y@.len(),
            text_less(a@, b@) == bytes_less(x@.skip(i as int), y@.skip(i as int)),
        decreases x@.len() - i,
    {
        if x[i] != y[i] {
            return x[i] < y[i];
        }
        assert(x@.skip(i as int).drop_first() == x@.skip(i + 1));
        assert(y@.skip(i as int).drop_first() == y@.skip(i + 1));
        i += 1;
    }
    i < y.len()
}

proof fn lemma_trimmed_start_is_a_tail(s: Seq<char>)
    ensures
        trimmed_start(s).len() <= s.len(),
        trimmed_start(s) == s.skip(s.len() - trimmed_start(s).len()),
        trimmed_start(s).len() > 0 ==> !is_space(trimmed_start(s)[0]),
        forall|i: int| 0 <= i < s.len() - trimmed_start(s).len() ==> is_space(#[trigger] s[i]),
    decreases s.len(),
{
    if s.len() > 0 && is_space(s[0]) {
        let rest = s.drop_first();
        lemma_trimmed_start_is_a_tail(rest);
        assert forall|i: int| 0 <= i < s.len() - trimmed_start(s).len() implies is_space(
            #[trigger] s[i],
        ) by {
            if i > 0 {
                assert(is_space(rest[i - 1]));
            }
        }
        let n = trimmed_start(s).len();
        assert(s.skip(s.len() - n) =~= s.drop_first().skip(s.drop_first().len() - n));
    } else {
        assert(s.skip(0) =~= s);
    }
}

proof fn lemma_trimmed_end_is_a_head(s: Seq<char>)
    ensures
        trimmed_end(s).len() <= s.len(),
        trimmed_end(s) == s.take(trimmed_end(s).len() as int),
        trimmed_end(s).len() > 0 ==> !is_space(trimmed_end(s).last()),
        forall|i: int| trimmed_end(s).len() <= i < s.len() ==> is_space(#[trigger] s[i]),
    decreases s.len(),
{
    if s.len() > 0 && is_space(s.last()) {
        let rest = s.drop_last();
        lemma_trimmed_end_is_a_head(rest);
        assert forall|i: int| trimmed_end(s).len() <= i < s.len() implies is_space(
            #[trigger] s[i],
        ) by {
            if i < rest.len() {
                assert(is_space(rest[i]));
            }
        }
        let n = trimmed_end(s).len() as int;
        assert(s.take(n) =~= s.drop_last().take(n));
    } else {
        assert(s.take(s.len() as int) =~= s);
    }
}

/// A trimmed text neither begins nor ends with white space, and what it lacks of the text is the
/// white space before it and after it.
pub proof fn law_trimmed(s: Seq<char>)
    ensures
        trimmed(s).len() > 0 ==> !is_space(trimmed(s)[0]) && !is_space(trimmed(s).last()),
        has_part(s, trimmed(s)),
        exists|from: int, to: int|
            0 <= from <= to <= s.len() && trimmed(s) == #[trigger] s.subrange(from, to) && (forall|
                i: int,
            |
                0 <= i < from || to <= i < s.len() ==> is_space(#[trigger] s[i])),
        trimmed(trimmed(s)) == trimmed(s),
{
    let start = trimmed_start(s);
    let r = trimmed(s);
    lemma_trimmed_start_is_a_tail(s);
    lemma_trimmed_end_is_a_head(start);
    if r.len() > 0 {
        assert(r[0] == start[0]);
    }
    let at = s.len() - start.len();
    assert(s.subrange(at, at + r.len()) =~= r);
    assert(stands_at(s, r, at));
    let to = at + r.len();
    assert(r =~= s.subrange(at, to));
    assert forall|i: int| 0 <= i < at || to <= i < s.len() implies is_space(#[trigger] s[i]) by {
        if i >= to {
            assert(start[i - at] == s[i]);
        }
    }
}

/// What is taken off the end of a text are occurrences of the character, and all of them.
pub proof fn law_without_trailing(s: Seq<char>, c: char)
    ensures
        without_trailing(s, c).len() <= s.len(),
        without_trailing(s, c) == s.take(without_trailing(s, c).len() as int),
        forall|i: int| without_trailing(s, c).len() <= i < s.len() ==> #[trigger] s[i] == c,
        without_trailing(s, c).len() > 0 ==> without_trailing(s, c).last() != c,
    decreases s.len(),
{
    if s.len() > 0 && s.last() == c {
        let rest = s.drop_last();
        law_without_trailing(rest, c);
        let n = without_trailing(s, c).len() as int;
        assert(s.take(n) =~= rest.take(n));
        assert forall|i: int| n <= i < s.len() implies #[trigger] s[i] == c by {
            if i < rest.len() {
                assert(rest[i] == c);
            }
        }
    } else {
        assert(s.take(s.len() as int) =~= s);
    }
}

/// What stands before a character does not hold it, and reaches up to it or to the end.
pub proof fn law_before(s: Seq<char>, c: char)
    ensures
        before(s, c).len() <= s.len(),
        before(s, c) == s.take(before(s, c).len() as int),
        !before(s, c).contains(c),
        before(s, c).len() < s.len() ==> s[before(s, c).len() as int] == c,
{
    lemma_first_index(s, c);
}

/// What stands between two texts is a part of the whole, and every part of a text stands between
/// two texts.
pub proof fn law_parts(a: Seq<char>, part: Seq<char>, b: Seq<char>, whole: Seq<char>)
    ensures
        has_part(a + part + b, part),
        has_part(whole, part) ==> exists|head: Seq<char>, tail: Seq<char>|
            whole == #[trigger] (head + part + tail),
{
    assert((a + part + b).subrange(a.len() as int, (a.len() + part.len()) as int) =~= part);
    assert(stands_at(a + part + b, part, a.len() as int));
    if has_part(whole, part) {
        let at = choose|at: int| stands_at(whole, part, at);
        let head = whole.take(at);
        let tail = whole.skip(at + part.len());
        assert forall|i: int| 0 <= i < part.len() implies whole[at + i] == part[i] by {
            assert(whole.subrange(at, at + part.len())[i] == part[i]);
        }
        assert(whole =~= head + part + tail);
    }
}

/// A part of a part is a part.
pub proof fn law_parts_of_parts(whole: Seq<char>, part: Seq<char>, piece: Seq<char>)
    requires
        has_part(whole, part),
        has_part(part, piece),
    ensures
        has_part(whole, piece),
{
    let at = choose|at: int| stands_at(whole, part, at);
    let within = choose|within: int| stands_at(part, piece, within);
    assert(whole.subrange(at + within, at + within + piece.len()) =~= part.subrange(
        within,
        within + piece.len(),
    )) by {
        assert forall|i: int| 0 <= i < part.len() implies whole[at + i] == part[i] by {
            assert(whole.subrange(at, at + part.len())[i] == part[i]);
        }
    }
    assert(stands_at(whole, piece, at + within));
}

/// A text begins with what it is continued from, and with nothing else.
pub proof fn law_beginnings(s: Seq<char>, head: Seq<char>, rest: Seq<char>)
    ensures
        begins_with(head + rest, head),
        begins_with(s, head) ==> head.len() <= s.len() && s == head + s.skip(head.len() as int),
{
    assert(head =~= (head + rest).take(head.len() as int));
    if begins_with(s, head) {
        assert(s =~= head + s.skip(head.len() as int));
    }
}

/// A line ends at a newline, or at a carriage return and a newline, neither of which is part of
/// it; what follows the last newline is a line unless it is empty.
pub proof fn law_lines(line: Seq<char>, rest: Seq<char>)
    requires
        !line.contains('\n'),
    ensures
        lines_of(seq![]) == Seq::<Seq<char>>::empty(),
        line.len() > 0 ==> lines_of(line) == seq![line],
        line.len() == 0 || line.last() != '\r' ==> lines_of(line + seq!['\n'] + rest) == seq![line]
            + lines_of(rest),
        lines_of(line + seq!['\r', '\n'] + rest) == seq![line] + lines_of(rest),
{
    assert forall|j: int| 0 <= j < line.len() implies line[j] != '\n' by {
        assert(line.contains(line[j]));
    }
    lemma_first_index_is(line, '\n', line.len() as int);
    let n = line.len() as int;
    let plain = line + seq!['\n'] + rest;
    lemma_first_index_is(plain, '\n', n);
    assert(plain.take(n) =~= line);
    assert(plain.skip(n + 1) =~= rest);
    let returned = line + seq!['\r', '\n'] + rest;
    lemma_first_index_is(returned, '\n', n + 1);
    assert(returned.take(n + 1) =~= line.push('\r'));
    assert(line.push('\r').drop_last() =~= line);
    assert(returned.skip(n + 2) =~= rest);
}

/// A list of one item joined is that item, and two lists joined are each of them joined, with the
/// separator between them.
pub proof fn law_joined(a: Seq<Seq<char>>, b: Seq<Seq<char>>, separator: Seq<char>, item: Seq<char>)
    ensures
        joined(seq![], separator) == Seq::<char>::empty(),
        joined(seq![item], separator) == item,
        a.len() > 0 && b.len() > 0 ==> joined(a + b, separator) == joined(a, separator) + separator
            + joined(b, separator),
    decreases b.len(),
{
    let all = a + b;
    if a.len() > 0 && b.len() > 0 {
        assert(all.last() == b.last());
        if b.len() == 1 {
            assert(all.drop_last() =~= a);
        } else {
            law_joined(a, b.drop_last(), separator, item);
            assert(all.drop_last() =~= a + b.drop_last());
        }
        assert(joined(all, separator) =~= joined(a, separator) + separator + joined(b, separator));
    }
}

/// Of two runs of bytes that part at some place the one with the smaller byte there comes first,
/// and a run comes before what it is continued to.
pub proof fn law_order_of_bytes(head: Seq<u8>, x: u8, a: Seq<u8>, y: u8, b: Seq<u8>)
    requires
        x < y,
    ensures
        bytes_less(head + seq![x] + a, head + seq![y] + b),
        !bytes_less(head + seq![y] + b, head + seq![x] + a),
        bytes_less(head, head + seq![x] + a),
        !bytes_less(head + seq![x] + a, head),
    decreases head.len(),
{
    let p = head + seq![x] + a;
    let q = head + seq![y] + b;
    if head.len() > 0 {
        law_order_of_bytes(head.drop_first(), x, a, y, b);
        assert(p.drop_first() =~= head.drop_first() + seq![x] + a);
        assert(q.drop_first() =~= head.drop_first() + seq![y] + b);
    }
}

/// Texts come in the order of their UTF-8 bytes.
pub proof fn law_order_of_texts(
    s: Seq<char>,
    t: Seq<char>,
    head: Seq<u8>,
    x: u8,
    a: Seq<u8>,
    y: u8,
    b: Seq<u8>,
)
    requires
        x < y,
    ensures
        encode_utf8(s) == head + seq![x] + a && encode_utf8(t) == head + seq![y] + b ==> text_less(
            s,
            t,
        ) && !text_less(t, s),
        encode_utf8(s) == head && encode_utf8(t) == head + seq![x] + a ==> text_less(s, t)
            && !text_less(t, s),
{
    law_order_of_bytes(head, x, a, y, b);
}

/// In small letters each ASCII capital is its small letter, and every other character stays.
pub proof fn law_ascii_lowercase(s: Seq<char>, i: int)
    requires
        0 <= i < s.len(),
    ensures
        ascii_lowercase(s).len() == s.len(),
        'A' <= s[i] <= 'Z' ==> ascii_lowercase(s)[i] as int == s[i] as int + 32,
        !('A' <= s[i] <= 'Z') ==> ascii_lowercase(s)[i] == s[i],
{
    lemma_fold_is_a_char(s[i]);
}

/// A folded character is a character.
proof fn lemma_fold_is_a_char(c: char)
    ensures
        ascii_fold(c) as char as int == ascii_fold(c),
{
    let n: u32 = c as u32;
    assert(n <= 0xd7ff || 0xe000 <= n <= 0x10ffff);
}

/// Two texts are the same but for the case of ASCII letters exactly if they are the same in small
/// letters.
pub proof fn law_same_but_ascii_case(a: Seq<char>, b: Seq<char>)
    ensures
        same_but_ascii_case(a, b) <==> ascii_lowercase(a) == ascii_lowercase(b),
{
    let x = ascii_lowercase(a);
    let y = ascii_lowercase(b);
    if same_but_ascii_case(a, b) {
        assert(x =~= y);
    }
    if x == y {
        assert(a.len() == x.len() && b.len() == y.len());
        assert forall|i: int| 0 <= i < a.len() implies ascii_fold(#[trigger] a[i]) == ascii_fold(
            b[i],
        ) by {
            assert(x[i] == y[i]);
            lemma_fold_is_a_char(a[i]);
            lemma_fold_is_a_char(b[i]);
        }
    }
}

/// A list joined is its first item, the separator, and the rest joined.
proof fn lemma_joined_from_the_front(list: Seq<Seq<char>>, separator: Seq<char>)
    requires
        list.len() > 1,
    ensures
        joined(list, separator) == list[0] + separator + joined(list.drop_first(), separator),
    decreases list.len(),
{
    let rest = list.drop_first();
    let front = list.drop_last();
    if list.len() == 2 {
        assert(joined(front, separator) == list[0]);
        assert(joined(rest, separator) == list[1]);
    } else {
        lemma_joined_from_the_front(front, separator);
        assert(front.drop_first() =~= rest.drop_last());
        assert(rest.last() == list.last());
        assert(joined(list, separator) =~= list[0] + separator + joined(rest, separator));
    }
}

proof fn lemma_first_index_is(s: Seq<char>, c: char, i: int)
    requires
        0 <= i <= s.len(),
        forall|j: int| 0 <= j < i ==> s[j] != c,
        i < s.len() ==> s[i] == c,
    ensures
        first_index(s, c) == i,
{
    lemma_first_index(s, c);
}

/// Lines that are joined by newlines are read back as they were, where no line holds a newline,
/// none ends in a carriage return, and the last one is not empty.
pub proof fn law_joined_lines_read_back(list: Seq<Seq<char>>)
    requires
        forall|i: int, j: int|
            0 <= i < list.len() && 0 <= j < list[i].len() ==> #[trigger] list[i][j] != '\n',
        forall|i: int|
            0 <= i < list.len() && list[i].len() > 0 ==> (#[trigger] list[i]).last() != '\r',
        list.len() > 0 ==> list.last().len() > 0,
    ensures
        lines_of(joined(list, seq!['\n'])) == list,
    decreases list.len(),
{
    let whole = joined(list, seq!['\n']);
    if list.len() == 0 {
        assert(lines_of(whole) =~= list);
    } else if list.len() == 1 {
        lemma_first_index_is(whole, '\n', whole.len() as int);
        assert(lines_of(whole) =~= list);
    } else {
        let rest = list.drop_first();
        let tail = joined(rest, seq!['\n']);
        lemma_joined_from_the_front(list, seq!['\n']);
        assert forall|i: int, j: int|
            0 <= i < rest.len() && 0 <= j < rest[i].len() implies #[trigger] rest[i][j]
            != '\n' by {
            assert(list[i + 1][j] != '\n');
        }
        assert forall|i: int| 0 <= i < rest.len() && rest[i].len() > 0 implies (
        #[trigger] rest[i]).last() != '\r' by {
            assert(list[i + 1].last() != '\r');
        }
        law_joined_lines_read_back(rest);
        let end = list[0].len() as int;
        assert forall|j: int| 0 <= j < end implies whole[j] != '\n' by {
            assert(whole[j] == list[0][j]);
        }
        assert(whole[end] == '\n');
        lemma_first_index_is(whole, '\n', end);
        assert(whole.take(end) =~= list[0]);
        assert(whole.skip(end + 1) =~= tail);
        assert(lines_of(whole) =~= list);
    }
}

} // verus!
