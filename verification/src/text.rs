//! Text handling: search, trimming, line splitting, decimal numbers.

use vstd::prelude::*;

verus! {

/// `String::push` of the standard library appends the given character.
pub assume_specification[ String::push ](s: &mut String, c: char)
    ensures
        final(s)@ == old(s)@.push(c),
;

/// `needle` stands in `hay` from position `i` on.
pub open spec fn occurs_at(hay: Seq<char>, needle: Seq<char>, i: int) -> bool {
    0 <= i && i + needle.len() <= hay.len() && hay.subrange(i, i + needle.len()) == needle
}

/// `needle` stands somewhere in `hay`.
pub open spec fn mentions(hay: Seq<char>, needle: Seq<char>) -> bool {
    exists|i: int| occurs_at(hay, needle, i)
}

/// `s` begins with `prefix`.
pub open spec fn begins(s: Seq<char>, prefix: Seq<char>) -> bool {
    occurs_at(s, prefix, 0)
}

/// The characters that the Unicode property `White_Space` holds of.
pub open spec fn blank(c: char) -> bool {
    ||| '\u{9}' <= c <= '\u{d}'
    ||| c == ' '
    ||| c == '\u{85}'
    ||| c == '\u{a0}'
    ||| c == '\u{1680}'
    ||| '\u{2000}' <= c <= '\u{200a}'
    ||| c == '\u{2028}'
    ||| c == '\u{2029}'
    ||| c == '\u{202f}'
    ||| c == '\u{205f}'
    ||| c == '\u{3000}'
}

/// `s` without the white space at its start.
pub open spec fn trimmed_start(s: Seq<char>) -> Seq<char>
    decreases s.len(),
{
    if s.len() > 0 && blank(s[0]) {
        trimmed_start(s.skip(1))
    } else {
        s
    }
}

/// `s` without the white space at its end.
pub open spec fn trimmed_end(s: Seq<char>) -> Seq<char>
    decreases s.len(),
{
    if s.len() > 0 && blank(s.last()) {
        trimmed_end(s.drop_last())
    } else {
        s
    }
}

/// `s` without the white space at either end.
pub open spec fn trimmed(s: Seq<char>) -> Seq<char> {
    trimmed_end(trimmed_start(s))
}

/// A trimmed text has no white space at either end.
pub proof fn lemma_trimmed_ends(s: Seq<char>)
    ensures
        trimmed(s).len() > 0 ==> !blank(trimmed(s)[0]) && !blank(trimmed(s).last()),
{
    lemma_trimmed_start(s);
    lemma_trimmed_end(trimmed_start(s));
}

proof fn lemma_trimmed_start(s: Seq<char>)
    ensures
        trimmed_start(s).len() > 0 ==> !blank(trimmed_start(s)[0]),
    decreases s.len(),
{
    if s.len() > 0 && blank(s[0]) {
        lemma_trimmed_start(s.skip(1));
    }
}

proof fn lemma_trimmed_end(s: Seq<char>)
    ensures
        trimmed_end(s).len() > 0 ==> !blank(trimmed_end(s).last()) && s.len() > 0 && trimmed_end(
            s,
        )[0] == s[0],
    decreases s.len(),
{
    if s.len() > 0 && blank(s.last()) {
        lemma_trimmed_end(s.drop_last());
    }
}

/// A character with the letters `A` to `Z` in lower case.
pub open spec fn lower_char(c: char) -> char {
    if 'A' <= c <= 'Z' {
        ((c as u32 + 32) as u8) as char
    } else {
        c
    }
}

/// `s` with the letters `A` to `Z` in lower case.
pub open spec fn lowered(s: Seq<char>) -> Seq<char> {
    s.map_values(|c: char| lower_char(c))
}

/// Position of the first line feed of `s` at or after `i`, or the length of `s`.
pub open spec fn line_end(s: Seq<char>, i: int) -> int
    decreases s.len() - i,
{
    if i < 0 || i >= s.len() {
        s.len() as int
    } else if s[i] == '\n' {
        i
    } else {
        line_end(s, i + 1)
    }
}

/// A line that a line feed ended, without the carriage return before the line feed.
pub open spec fn without_return(s: Seq<char>) -> Seq<char> {
    if s.len() > 0 && s.last() == '\r' {
        s.drop_last()
    } else {
        s
    }
}

/// The lines of `s` from position `i` on. A line ends at a line feed, or at a carriage return
/// with a line feed behind it; the end of the last line may be left off.
pub open spec fn lines_from(s: Seq<char>, i: int) -> Seq<Seq<char>>
    decreases s.len() - i,
    via lines_from_decreases
{
    if i < 0 || i >= s.len() {
        Seq::empty()
    } else {
        let e = line_end(s, i);
        if e >= s.len() {
            seq![s.skip(i)]
        } else {
            seq![without_return(s.subrange(i, e))] + lines_from(s, e + 1)
        }
    }
}

#[via_fn]
proof fn lines_from_decreases(s: Seq<char>, i: int) {
    if 0 <= i < s.len() {
        lemma_line_end(s, i);
    }
}

/// Where the first line feed stands.
pub proof fn lemma_line_end(s: Seq<char>, i: int)
    requires
        0 <= i <= s.len(),
    ensures
        i <= line_end(s, i) <= s.len(),
        line_end(s, i) < s.len() ==> s[line_end(s, i)] == '\n',
    decreases s.len() - i,
{
    if i < s.len() && s[i] != '\n' {
        lemma_line_end(s, i + 1);
    }
}

/// The lines of `s`.
pub open spec fn line_list(s: Seq<char>) -> Seq<Seq<char>> {
    lines_from(s, 0)
}

/// The digit character for `d`.
pub open spec fn digit(d: nat) -> char {
    (('0' as u8 + d) as u8) as char
}

/// `n` in decimal.
pub open spec fn dec(n: nat) -> Seq<char>
    decreases n,
{
    if n < 10 {
        seq![digit(n)]
    } else {
        dec(n / 10).push(digit(n % 10))
    }
}

/// `n` in decimal, with a sign where it is negative.
pub open spec fn sdec(n: int) -> Seq<char> {
    if n < 0 {
        seq!['-'] + dec((-n) as nat)
    } else {
        dec(n as nat)
    }
}

/// How many bytes a character takes in UTF-8.
pub open spec fn utf8_size(c: char) -> nat {
    if c as u32 <= 0x7f {
        1
    } else if c as u32 <= 0x7ff {
        2
    } else if c as u32 <= 0xffff {
        3
    } else {
        4
    }
}

/// How many bytes a text takes in UTF-8.
pub open spec fn utf8_len(s: Seq<char>) -> nat
    decreases s.len(),
{
    if s.len() == 0 {
        0
    } else {
        utf8_len(s.drop_last()) + utf8_size(s.last())
    }
}

/// `n` spaces.
pub open spec fn spaces(n: int) -> Seq<char> {
    Seq::new(if n > 0 { n as nat } else { 0 }, |i: int| ' ')
}

/// `s` filled up with spaces behind it to `width` characters.
pub open spec fn padded_right(s: Seq<char>, width: int) -> Seq<char> {
    s + spaces(width - s.len())
}

/// `s` filled up with spaces before it to `width` characters.
pub open spec fn padded_left(s: Seq<char>, width: int) -> Seq<char> {
    spaces(width - s.len()) + s
}

/// Alphabetical order by character number: `a` stands before `b`.
pub open spec fn before(a: Seq<char>, b: Seq<char>) -> bool
    decreases a.len(),
{
    if b.len() == 0 {
        false
    } else if a.len() == 0 {
        true
    } else if a[0] == b[0] {
        before(a.skip(1), b.skip(1))
    } else {
        a[0] < b[0]
    }
}

/// The texts of a list of strings.
pub open spec fn texts(v: Seq<String>) -> Seq<Seq<char>> {
    v.map_values(|s: String| s@)
}

/// The characters of `s`.
pub fn chars_of(s: &str) -> (r: Vec<char>)
    ensures
        r@ == s@,
{
    let mut out: Vec<char> = Vec::new();
    for c in it: s.chars()
        invariant
            out@ == it.seq().take(it.index()),
            it.seq() == s@,
    {
        out.push(c);
    }
    out
}

/// The string of the characters of `v` from `from` up to `to`.
pub fn string_of(v: &Vec<char>, from: usize, to: usize) -> (r: String)
    requires
        from <= to <= v@.len(),
    ensures
        r@ == v@.subrange(from as int, to as int),
{
    let mut out = String::new();
    let mut i: usize = from;
    while i < to
        invariant
            from <= i <= to <= v@.len(),
            out@ == v@.subrange(from as int, i as int),
        decreases to - i,
    {
        out.push(v[i]);
        i += 1;
        assert(v@.subrange(from as int, i as int) =~= v@.subrange(from as int, i - 1).push(
            v@[i - 1],
        ));
    }
    out
}

/// An owned copy of `s`.
pub fn owned(s: &str) -> (r: String)
    ensures
        r@ == s@,
{
    s.to_owned()
}

/// Whether two texts are equal.
pub fn same(a: &str, b: &str) -> (r: bool)
    ensures
        r == (a@ == b@),
{
    let x = chars_of(a);
    let y = chars_of(b);
    if x.len() != y.len() {
        return false;
    }
    let mut i: usize = 0;
    while i < x.len()
        invariant
            i <= x.len(),
            x@ == a@,
            y@ == b@,
            x@.len() == y@.len(),
            forall|j: int| 0 <= j < i ==> x@[j] == y@[j],
        decreases x.len() - i,
    {
        if x[i] != y[i] {
            return false;
        }
        i += 1;
    }
    assert(a@ =~= b@);
    true
}

fn occurs(hay: &Vec<char>, needle: &Vec<char>, at: usize) -> (r: bool)
    ensures
        r == occurs_at(hay@, needle@, at as int),
{
    if needle.len() > hay.len() || at > hay.len() - needle.len() {
        return false;
    }
    let mut j: usize = 0;
    while j < needle.len()
        invariant
            j <= needle.len(),
            at + needle.len() <= hay.len(),
            forall|k: int| 0 <= k < j ==> hay@[at + k] == needle@[k],
        decreases needle.len() - j,
    {
        if hay[at + j] != needle[j] {
            assert(hay@.subrange(at as int, at + needle@.len())[j as int] == hay@[at + j]);
            return false;
        }
        j += 1;
    }
    assert(hay@.subrange(at as int, at + needle@.len()) =~= needle@);
    true
}

/// Whether `needle` stands somewhere in `hay`.
pub fn contains(hay: &str, needle: &str) -> (r: bool)
    ensures
        r == mentions(hay@, needle@),
{
    let h = chars_of(hay);
    let n = chars_of(needle);
    let mut i: usize = 0;
    while i < h.len()
        invariant
            i <= h.len(),
            h@ == hay@,
            n@ == needle@,
            forall|j: int| 0 <= j < i ==> !occurs_at(hay@, needle@, j),
        decreases h.len() - i,
    {
        if occurs(&h, &n, i) {
            return true;
        }
        i += 1;
    }
    occurs(&h, &n, i)
}

/// Whether any of `needles` stands somewhere in `hay`.
pub fn contains_any(hay: &str, needles: &Vec<&str>) -> (r: bool)
    ensures
        r == exists|k: int| 0 <= k < needles@.len() && mentions(hay@, #[trigger] needles@[k]@),
{
    let mut i: usize = 0;
    while i < needles.len()
        invariant
            i <= needles.len(),
            forall|k: int| 0 <= k < i ==> !mentions(hay@, #[trigger] needles@[k]@),
        decreases needles.len() - i,
    {
        if contains(hay, needles[i]) {
            return true;
        }
        i += 1;
    }
    false
}

/// Whether `s` begins with `prefix`.
pub fn starts_with(s: &str, prefix: &str) -> (r: bool)
    ensures
        r == begins(s@, prefix@),
{
    occurs(&chars_of(s), &chars_of(prefix), 0)
}

/// Whether `c` is white space.
pub fn is_blank(c: char) -> (r: bool)
    ensures
        r == blank(c),
{
    ('\u{9}' <= c && c <= '\u{d}') || c == ' ' || c == '\u{85}' || c == '\u{a0}' || c == '\u{1680}'
        || ('\u{2000}' <= c && c <= '\u{200a}') || c == '\u{2028}' || c == '\u{2029}' || c
        == '\u{202f}' || c == '\u{205f}' || c == '\u{3000}'
}

fn first_solid(v: &Vec<char>) -> (r: usize)
    ensures
        r <= v@.len(),
        trimmed_start(v@) == v@.skip(r as int),
{
    let mut i: usize = 0;
    assert(v@.skip(0) =~= v@);
    while i < v.len() && is_blank(v[i])
        invariant
            i <= v@.len(),
            trimmed_start(v@) == trimmed_start(v@.skip(i as int)),
        decreases v.len() - i,
    {
        assert(v@.skip(i as int).skip(1) =~= v@.skip(i + 1));
        assert(v@.skip(i as int)[0] == v@[i as int]);
        i += 1;
    }
    if i < v.len() {
        assert(v@.skip(i as int)[0] == v@[i as int]);
    }
    i
}

fn last_solid(v: &Vec<char>, from: usize) -> (r: usize)
    requires
        from <= v@.len(),
    ensures
        from <= r <= v@.len(),
        trimmed_end(v@.skip(from as int)) == v@.subrange(from as int, r as int),
{
    let mut e: usize = v.len();
    assert(v@.skip(from as int) =~= v@.subrange(from as int, e as int));
    while e > from && is_blank(v[e - 1])
        invariant
            from <= e <= v@.len(),
            trimmed_end(v@.skip(from as int)) == trimmed_end(v@.subrange(from as int, e as int)),
        decreases e,
    {
        let ghost cur = v@.subrange(from as int, e as int);
        assert(cur.drop_last() =~= v@.subrange(from as int, e - 1));
        assert(cur.last() == v@[e - 1]);
        e -= 1;
    }
    if e > from {
        assert(v@.subrange(from as int, e as int).last() == v@[e - 1]);
    }
    e
}

/// `s` without the white space at its start.
pub fn trim_start(s: &str) -> (r: String)
    ensures
        r@ == trimmed_start(s@),
{
    let v = chars_of(s);
    let i = first_solid(&v);
    assert(v@.skip(i as int) =~= v@.subrange(i as int, v@.len() as int));
    string_of(&v, i, v.len())
}

/// `s` without the white space at either end.
pub fn trim(s: &str) -> (r: String)
    ensures
        r@ == trimmed(s@),
{
    let v = chars_of(s);
    let i = first_solid(&v);
    let e = last_solid(&v, i);
    string_of(&v, i, e)
}

/// `s` with the letters `A` to `Z` in lower case.
pub fn lower(s: &str) -> (r: String)
    ensures
        r@ == lowered(s@),
{
    let mut out = String::new();
    for c in it: s.chars()
        invariant
            out@ == lowered(it.seq().take(it.index())),
            it.seq() == s@,
    {
        let ghost i = it.index();
        let l = if 'A' <= c && c <= 'Z' {
            ((c as u32 + 32) as u8) as char
        } else {
            c
        };
        out.push(l);
        proof {
            assert(lowered(s@.take(i + 1)) =~= lowered(s@.take(i)).push(lower_char(s@[i])));
        }
    }
    assert(s@.take(s@.len() as int) =~= s@);
    out
}

fn find_line_end(v: &Vec<char>, from: usize) -> (r: usize)
    requires
        from <= v@.len(),
    ensures
        r == line_end(v@, from as int),
        from <= r <= v@.len(),
{
    let mut i: usize = from;
    while i < v.len() && v[i] != '\n'
        invariant
            from <= i <= v@.len(),
            line_end(v@, from as int) == line_end(v@, i as int),
        decreases v.len() - i,
    {
        i += 1;
    }
    i
}

/// The lines of `s`.
pub fn lines(s: &str) -> (r: Vec<String>)
    ensures
        texts(r@) == line_list(s@),
{
    let v = chars_of(s);
    let mut out: Vec<String> = Vec::new();
    let mut i: usize = 0;
    assert(texts(out@) + lines_from(s@, 0) =~= lines_from(s@, 0));
    while i < v.len()
        invariant
            i <= v@.len(),
            v@ == s@,
            texts(out@) + lines_from(s@, i as int) == line_list(s@),
        decreases v.len() - i,
    {
        let e = find_line_end(&v, i);
        let ghost before_push = out@;
        let ghost rest = lines_from(s@, i as int);
        if e >= v.len() {
            let line = string_of(&v, i, v.len());
            assert(s@.skip(i as int) =~= s@.subrange(i as int, s@.len() as int));
            out.push(line);
            assert(texts(out@) =~= texts(before_push).push(line@));
            assert(texts(before_push) + rest =~= texts(out@));
            assert(texts(out@) + lines_from(s@, s@.len() as int) =~= texts(out@));
            i = v.len();
        } else {
            let line = if e > i && v[e - 1] == '\r' {
                assert(s@.subrange(i as int, e as int).last() == s@[e - 1]);
                assert(s@.subrange(i as int, e as int).drop_last() =~= s@.subrange(
                    i as int,
                    e - 1,
                ));
                string_of(&v, i, e - 1)
            } else {
                if e > i {
                    assert(s@.subrange(i as int, e as int).last() == s@[e - 1]);
                }
                string_of(&v, i, e)
            };
            assert(line@ == without_return(s@.subrange(i as int, e as int)));
            out.push(line);
            assert(texts(out@) =~= texts(before_push).push(line@));
            assert(rest == seq![line@] + lines_from(s@, e + 1));
            assert(texts(before_push) + rest =~= texts(out@) + lines_from(s@, e + 1));
            i = e + 1;
        }
    }
    assert(texts(out@) + lines_from(s@, i as int) =~= texts(out@));
    out
}

/// `n` in decimal.
pub fn decimal(n: u64) -> (r: String)
    ensures
        r@ == dec(n as nat),
    decreases n,
{
    let d = ((n % 10) as u8 + 48) as char;
    if n < 10 {
        let mut s = String::new();
        s.push(d);
        assert(s@ =~= seq![digit(n as nat)]);
        s
    } else {
        let mut s = decimal(n / 10);
        s.push(d);
        s
    }
}

/// Append `n` spaces to `s`.
fn push_spaces(s: &mut String, n: usize)
    ensures
        final(s)@ == old(s)@ + spaces(n as int),
{
    let mut i: usize = 0;
    assert(s@ =~= old(s)@ + spaces(0));
    while i < n
        invariant
            i <= n,
            s@ == old(s)@ + spaces(i as int),
        decreases n - i,
    {
        s.push(' ');
        i += 1;
        assert(spaces(i as int) =~= spaces(i - 1).push(' '));
        assert(s@ =~= old(s)@ + spaces(i as int));
    }
}

/// `n` in decimal, with a sign where it is negative.
pub fn signed_decimal(n: i32) -> (r: String)
    ensures
        r@ == sdec(n as int),
{
    if n < 0 {
        let mut s = String::new();
        s.push('-');
        let d = decimal((-(n as i64)) as u64);
        s.append(d.as_str());
        assert(s@ =~= sdec(n as int));
        s
    } else {
        decimal(n as u64)
    }
}

/// Whether a text takes fewer than `limit` bytes in UTF-8.
pub fn shorter_than(s: &str, limit: usize) -> (r: bool)
    ensures
        r == (utf8_len(s@) < limit),
{
    let v = chars_of(s);
    let mut n: usize = 0;
    let mut i: usize = 0;
    assert(v@.take(0) =~= Seq::<char>::empty());
    while i < v.len()
        invariant
            i <= v.len(),
            v@ == s@,
            n == utf8_len(v@.take(i as int)),
            n < limit || (n == 0 && i == 0),
        decreases v.len() - i,
    {
        let c = v[i];
        let size: usize = if c as u32 <= 0x7f {
            1
        } else if c as u32 <= 0x7ff {
            2
        } else if c as u32 <= 0xffff {
            3
        } else {
            4
        };
        proof {
            let t = v@.take(i + 1);
            assert(t.drop_last() =~= v@.take(i as int));
            assert(t.last() == c);
            lemma_utf8_len_grows(v@, i + 1);
            assert(v@.take(v@.len() as int) =~= v@);
        }
        if limit <= n || limit - n <= size {
            return false;
        }
        n += size;
        i += 1;
    }
    assert(v@.take(v.len() as int) =~= v@);
    n < limit
}

proof fn lemma_utf8_len_grows(s: Seq<char>, k: int)
    requires
        0 <= k <= s.len(),
    ensures
        utf8_len(s.take(k)) <= utf8_len(s),
    decreases s.len() - k,
{
    if k < s.len() {
        let t = s.take(k + 1);
        assert(t.drop_last() =~= s.take(k));
        lemma_utf8_len_grows(s, k + 1);
    } else {
        assert(s.take(k) =~= s);
    }
}

/// `s` filled up with spaces behind it to `width` characters.
pub fn pad_right(s: &str, width: usize) -> (r: String)
    ensures
        r@ == padded_right(s@, width as int),
{
    let mut out = owned(s);
    let n = s.unicode_len();
    if n < width {
        push_spaces(&mut out, width - n);
    } else {
        assert(out@ =~= padded_right(s@, width as int));
    }
    out
}

/// `s` filled up with spaces before it to `width` characters.
pub fn pad_left(s: &str, width: usize) -> (r: String)
    ensures
        r@ == padded_left(s@, width as int),
{
    let n = s.unicode_len();
    let mut out = String::new();
    if n < width {
        push_spaces(&mut out, width - n);
    }
    out.append(s);
    assert(out@ =~= padded_left(s@, width as int));
    out
}

/// Whether `a` stands before `b` in alphabetical order.
pub fn is_before(a: &str, b: &str) -> (r: bool)
    ensures
        r == before(a@, b@),
{
    let x = chars_of(a);
    let y = chars_of(b);
    let mut i: usize = 0;
    assert(x@.skip(0) =~= x@);
    assert(y@.skip(0) =~= y@);
    while i < x.len() && i < y.len() && x[i] == y[i]
        invariant
            i <= x@.len(),
            i <= y@.len(),
            before(a@, b@) == before(x@.skip(i as int), y@.skip(i as int)),
        decreases x.len() - i,
    {
        assert(x@.skip(i as int)[0] == x@[i as int]);
        assert(y@.skip(i as int)[0] == y@[i as int]);
        assert(x@.skip(i as int).skip(1) =~= x@.skip(i + 1));
        assert(y@.skip(i as int).skip(1) =~= y@.skip(i + 1));
        i += 1;
    }
    if i < x.len() && i < y.len() {
        assert(x@.skip(i as int)[0] == x@[i as int]);
        assert(y@.skip(i as int)[0] == y@[i as int]);
        x[i] < y[i]
    } else {
        i < y.len()
    }
}

/// The UTF-16 code units of one character.
pub open spec fn units(c: char) -> Seq<u16> {
    let n = c as u32;
    if n < 0x1_0000 {
        seq![n as u16]
    } else {
        seq![
            (0xd800 + (n - 0x1_0000) / 0x400) as u16,
            (0xdc00 + (n - 0x1_0000) % 0x400) as u16,
        ]
    }
}

/// `s` in UTF-16.
pub open spec fn utf16(s: Seq<char>) -> Seq<u16>
    decreases s.len(),
{
    if s.len() == 0 {
        Seq::empty()
    } else {
        utf16(s.drop_last()) + units(s.last())
    }
}

/// `s` in UTF-16 with a terminating zero, as the operating system takes names.
pub fn wide(s: &str) -> (r: Vec<u16>)
    ensures
        r@ == utf16(s@).push(0),
{
    let mut out: Vec<u16> = Vec::new();
    for c in it: s.chars()
        invariant
            out@ == utf16(it.seq().take(it.index())),
            it.seq() == s@,
    {
        let ghost i = it.index();
        let ghost prior = out@;
        let n: u32 = c as u32;
        if n < 0x1_0000 {
            out.push(n as u16);
        } else {
            out.push((0xd800 + (n - 0x1_0000) / 0x400) as u16);
            out.push((0xdc00 + (n - 0x1_0000) % 0x400) as u16);
        }
        proof {
            assert(s@.take(i + 1).drop_last() =~= s@.take(i));
            assert(out@ =~= prior + units(c));
        }
    }
    assert(s@.take(s@.len() as int) =~= s@);
    out.push(0);
    out
}

/// What the standard library's lossy UTF-8 decoding makes of `b`.
pub uninterp spec fn utf8_lossy(b: Seq<u8>) -> Seq<char>;

/// The text that UTF-16 code units stand for: a unit outside the surrogates is the character of
/// its number, a high surrogate and the low one behind it are one character, and any other
/// surrogate is replaced by U+FFFD.
pub open spec fn utf16_text(w: Seq<u16>) -> Seq<char>
    decreases w.len(),
{
    if w.len() == 0 {
        Seq::empty()
    } else if w[0] < 0xd800 || w[0] > 0xdfff {
        seq![w[0] as char] + utf16_text(w.skip(1))
    } else if w[0] < 0xdc00 && w.len() > 1 && 0xdc00 <= w[1] <= 0xdfff {
        seq![(0x1_0000 + (w[0] - 0xd800) * 0x400 + (w[1] - 0xdc00)) as char] + utf16_text(w.skip(2))
    } else {
        seq!['\u{fffd}'] + utf16_text(w.skip(1))
    }
}

/// `String::from_utf8_lossy` of the standard library: the decoded text is a function of the
/// bytes alone, and bytes below 128 stand for the characters of the same numbers. How
/// malformed bytes are replaced is not stated.
#[verifier::external_body]
pub(crate) fn from_utf8(b: &Vec<u8>) -> (r: String)
    ensures
        r@ == utf8_lossy(b@),
        (forall|i: int| 0 <= i < b@.len() ==> b@[i] < 128) ==> r@ == b@.map_values(
            |x: u8| x as char,
        ),
{
    String::from_utf8_lossy(b).into_owned()
}

/// `String::from_utf16_lossy` of the standard library: the text that the code units stand for,
/// with U+FFFD in place of each surrogate that is not one of a pair.
#[verifier::external_body]
pub(crate) fn from_utf16(w: &Vec<u16>) -> (r: String)
    ensures
        r@ == utf16_text(w@),
{
    String::from_utf16_lossy(w)
}

/// White space at the start or at the end does not matter to a trimmed text, and a text without any
/// there is trimmed already.
pub proof fn law_trimming(s: Seq<char>, c: char)
    ensures
        blank(c) ==> trimmed(seq![c] + s) == trimmed(s),
        s.len() > 0 && !blank(s[0]) && !blank(s.last()) ==> trimmed(s) == s,
        trimmed(trimmed(s)) == trimmed(s),
        blank(' ') && blank('\t') && blank('\n') && blank('\r') && !blank('a') && !blank('_'),
{
    assert((seq![c] + s).skip(1) =~= s);
    lemma_trimmed_ends(s);
    let t = trimmed(s);
    if t.len() > 0 {
        assert(trimmed_start(t) == t);
        assert(trimmed_end(t) == t);
    } else {
        assert(trimmed_start(t) == t);
        assert(trimmed_end(t) == t);
    }
}

/// The number that a row of decimal digits stands for.
pub open spec fn number(s: Seq<char>) -> nat
    decreases s.len(),
{
    if s.len() == 0 {
        0
    } else {
        (10 * number(s.drop_last()) + (s.last() as u32 - '0' as u32)) as nat
    }
}

/// A number is written in decimal: its digits stand for it, none of them is anything but a digit,
/// and it does not begin with a zero unless it is zero. A negative number has a minus before it.
pub proof fn law_decimal(n: nat)
    ensures
        number(dec(n)) == n,
        dec(n).len() > 0,
        forall|i: int| 0 <= i < dec(n).len() ==> '0' <= #[trigger] dec(n)[i] <= '9',
        n > 0 ==> dec(n)[0] != '0',
        n > 0 ==> sdec(-(n as int)) == seq!['-'] + dec(n),
        sdec(n as int) == dec(n),
    decreases n,
{
    if n < 10 {
        let s = dec(n);
        assert(s.drop_last() =~= Seq::<char>::empty());
        assert(number(s.drop_last()) == 0);
    } else {
        law_decimal(n / 10);
        let s = dec(n);
        assert(s.drop_last() =~= dec(n / 10));
        assert(s[0] == dec(n / 10)[0]);
        assert forall|i: int| 0 <= i < s.len() implies '0' <= #[trigger] s[i] <= '9' by {
            if i < s.len() - 1 {
                assert(s[i] == dec(n / 10)[i]);
            }
        }
    }
}

proof fn lemma_no_line_end(s: Seq<char>, t: Seq<char>, i: int)
    requires
        0 <= i <= s.len(),
        forall|k: int| 0 <= k < s.len() ==> #[trigger] s[k] != '\n',
    ensures
        line_end(s + seq!['\n'] + t, i) == s.len(),
        line_end(s, i) == s.len(),
    decreases s.len() - i,
{
    let all = s + seq!['\n'] + t;
    if i < s.len() {
        assert(all[i] == s[i]);
        lemma_no_line_end(s, t, i + 1);
    } else {
        assert(all[i] == '\n');
    }
}

/// A text without a line feed is one line, unless it is empty. With a line feed, what stands before
/// it is the first line, without a carriage return at its end.
pub proof fn law_first_line(s: Seq<char>, t: Seq<char>)
    requires
        forall|k: int| 0 <= k < s.len() ==> #[trigger] s[k] != '\n',
    ensures
        s.len() > 0 ==> line_list(s) == seq![s],
        s.len() == 0 ==> line_list(s).len() == 0,
        line_list(s + seq!['\n'] + t)[0] == without_return(s),
        line_list(s + seq!['\n'] + t) == seq![without_return(s)] + lines_from(
            s + seq!['\n'] + t,
            s.len() + 1int,
        ),
{
    lemma_no_line_end(s, t, 0);
    let all = s + seq!['\n'] + t;
    assert(s.skip(0) =~= s);
    assert(all.subrange(0, s.len() as int) =~= s);
}

/// Letters from A to Z become small, and everything else stays.
pub proof fn law_lower(c: char)
    ensures
        'A' <= c <= 'Z' ==> lower_char(c) as u32 == c as u32 + 32,
        !('A' <= c <= 'Z') ==> lower_char(c) == c,
        lower_char(lower_char(c)) == lower_char(c),
{
}

/// Padding reaches the width with spaces on its own side, and keeps a text that is wide enough.
pub proof fn law_padding(s: Seq<char>, width: int)
    ensures
        s.len() >= width ==> padded_right(s, width) == s && padded_left(s, width) == s,
        s.len() < width ==> padded_right(s, width).len() == width && padded_left(s, width).len()
            == width,
        padded_right(s, width).take(s.len() as int) == s,
        padded_left(s, width).skip(padded_left(s, width).len() - s.len()) == s,
{
    assert(s.len() >= width ==> padded_right(s, width) =~= s && padded_left(s, width) =~= s);
    assert(padded_right(s, width).take(s.len() as int) =~= s);
    assert(padded_left(s, width).skip(padded_left(s, width).len() - s.len()) =~= s);
}

/// The order of texts is that of the first character in which they differ; a text comes before what
/// it is the beginning of. Of two texts that differ, one comes before the other.
pub proof fn law_text_order(a: Seq<char>, b: Seq<char>, c: char, d: char)
    ensures
        !before(a, a),
        before(a, b) ==> !before(b, a),
        a != b ==> before(a, b) || before(b, a),
        c < d ==> before(seq![c] + a, seq![d] + b),
        before(a, b) ==> before(seq![c] + a, seq![c] + b),
        b.len() > 0 ==> before(Seq::empty(), b),
    decreases a.len(),
{
    assert((seq![c] + a).skip(1) =~= a);
    assert((seq![c] + b).skip(1) =~= b);
    if a.len() > 0 && b.len() > 0 {
        law_text_order(a.skip(1), b.skip(1), c, d);
        if a[0] == b[0] && a.skip(1) == b.skip(1) {
            assert(a =~= seq![a[0]] + a.skip(1));
            assert(b =~= seq![b[0]] + b.skip(1));
        }
    } else if a.len() == 0 && b.len() == 0 {
        assert(a =~= b);
    }
    if a.len() > 0 {
        law_text_order(a.skip(1), a.skip(1), c, d);
    }
}

proof fn lemma_utf16_first(c: char, s: Seq<char>)
    ensures
        utf16(seq![c] + s) == units(c) + utf16(s),
    decreases s.len(),
{
    let t = seq![c] + s;
    if s.len() == 0 {
        assert(t.drop_last() =~= Seq::<char>::empty());
        assert(utf16(t.drop_last()) =~= Seq::<u16>::empty());
        assert(t.last() == c);
        assert(utf16(t) =~= units(c) + utf16(s));
    } else {
        lemma_utf16_first(c, s.drop_last());
        assert(t.drop_last() =~= seq![c] + s.drop_last());
        assert(utf16(t) =~= units(c) + (utf16(s.drop_last()) + units(s.last())));
    }
}

proof fn lemma_units_read(c: char, w: Seq<u16>)
    ensures
        utf16_text(units(c) + w) == seq![c] + utf16_text(w),
{
    let n = c as u32;
    let v = units(c) + w;
    if n < 0x1_0000 {
        assert(v.skip(1) =~= w);
        assert(v[0] == n);
    } else {
        assert(n <= 0x10_ffff);
        let hi = (n - 0x1_0000) / 0x400;
        let lo = (n - 0x1_0000) % 0x400;
        assert(0 <= hi < 0x400 && 0 <= lo < 0x400);
        assert(v.skip(2) =~= w);
        assert(v[0] == 0xd800 + hi);
        assert(v[1] == 0xdc00 + lo);
        assert(0x1_0000 + hi * 0x400 + lo == n);
    }
}

/// A text in UTF-16 reads back as the text.
pub proof fn law_utf16_reads_back(s: Seq<char>)
    ensures
        utf16_text(utf16(s)) == s,
    decreases s.len(),
{
    if s.len() > 0 {
        let rest = s.skip(1);
        assert(s =~= seq![s[0]] + rest);
        lemma_utf16_first(s[0], rest);
        law_utf16_reads_back(rest);
        lemma_units_read(s[0], utf16(rest));
    }
}

} // verus!
