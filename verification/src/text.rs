//! Text as sequences of characters.
//!
//! Every string of the library is reasoned about through its view, a
//! `Seq<char>`. This module moves between the two and holds the few text
//! operations that the rest of the library is written with.
use vstd::prelude::*;

verus! {

/// `String::push` appends the character to the end of the string.
pub assume_specification[ String::push ](s: &mut String, c: char)
    ensures
        final(s)@ == old(s)@.push(c),
;

/// What `str::to_lowercase` makes of a text: the Unicode lowercase mapping,
/// which may change the number of characters.
pub uninterp spec fn lowercase_text(s: Seq<char>) -> Seq<char>;

/// `str::to_lowercase`. The contract only says that the result depends on the
/// text alone.
#[verifier::external_body]
pub(crate) fn to_lowercase(s: &str) -> (r: String)
    ensures
        r@ == lowercase_text(s@),
{
    s.to_lowercase()
}

/// The characters of `s`, in order.
pub fn chars_of(s: &str) -> (r: Vec<char>)
    ensures
        r@ == s@,
{
    let mut r: Vec<char> = Vec::new();
    for c in it: s.chars()
        invariant
            it.seq() == s@,
            r@ == it.seq().take(it.index()),
    {
        r.push(c);
        assert(it.seq().take(it.index() + 1) == it.seq().take(it.index()).push(c));
    }
    assert(s@.take(s@.len() as int) == s@);
    r
}

/// The string made of the characters `chars[from..to]`.
pub fn string_between(chars: &Vec<char>, from: usize, to: usize) -> (r: String)
    requires
        from <= to <= chars@.len(),
    ensures
        r@ == chars@.subrange(from as int, to as int),
{
    let mut r = String::new();
    let mut i: usize = from;
    while i < to
        invariant
            from <= i <= to <= chars@.len(),
            r@ == chars@.subrange(from as int, i as int),
        decreases to - i,
    {
        r.push(chars[i]);
        assert(chars@.subrange(from as int, i + 1) == chars@.subrange(from as int, i as int).push(
            chars@[i as int],
        ));
        i = i + 1;
    }
    r
}

/// The string made of all of `chars`.
pub fn string_of(chars: &Vec<char>) -> (r: String)
    ensures
        r@ == chars@,
{
    let r = string_between(chars, 0, chars.len());
    assert(chars@.subrange(0, chars@.len() as int) == chars@);
    r
}

/// Whether two sequences hold the same bytes.
pub fn same_bytes(a: &[u8], b: &[u8]) -> (r: bool)
    ensures
        r == (a@ == b@),
{
    if a.len() != b.len() {
        return false;
    }
    let mut i: usize = 0;
    while i < a.len()
        invariant
            i <= a@.len() == b@.len(),
            forall|j: int| 0 <= j < i ==> a@[j] == b@[j],
        decreases a@.len() - i,
    {
        if a[i] != b[i] {
            assert(a@[i as int] != b@[i as int]);
            return false;
        }
        i = i + 1;
    }
    assert(a@ =~= b@);
    true
}

/// Whether two texts hold the same characters.
pub fn same_text(a: &str, b: &str) -> (r: bool)
    ensures
        r == (a@ == b@),
{
    proof {
        vstd::utf8::encode_utf8_decode_utf8(a@);
        vstd::utf8::encode_utf8_decode_utf8(b@);
    }
    same_bytes(a.as_bytes(), b.as_bytes())
}

/// Concatenation of two texts.
pub fn join2(a: &str, b: &str) -> (r: String)
    ensures
        r@ == a@ + b@,
{
    let mut r = a.to_owned();
    r.append(b);
    r
}

/// Concatenation of three texts.
pub fn join3(a: &str, b: &str, c: &str) -> (r: String)
    ensures
        r@ == a@ + b@ + c@,
{
    let mut r = a.to_owned();
    r.append(b);
    r.append(c);
    r
}

/// Lexicographic order on texts by Unicode scalar value, which is also the
/// order of their UTF-8 bytes.
pub open spec fn text_less(a: Seq<char>, b: Seq<char>) -> bool
    decreases a.len(),
{
    if b.len() == 0 {
        false
    } else if a.len() == 0 {
        true
    } else if a[0] != b[0] {
        (a[0] as int) < (b[0] as int)
    } else {
        text_less(a.drop_first(), b.drop_first())
    }
}

pub proof fn text_less_irreflexive(a: Seq<char>)
    ensures
        !text_less(a, a),
    decreases a.len(),
{
    if a.len() > 0 {
        text_less_irreflexive(a.drop_first());
    }
}

pub proof fn text_less_transitive(a: Seq<char>, b: Seq<char>, c: Seq<char>)
    requires
        text_less(a, b),
        text_less(b, c),
    ensures
        text_less(a, c),
    decreases a.len(),
{
    if a.len() > 0 && a[0] == b[0] && b[0] == c[0] {
        text_less_transitive(a.drop_first(), b.drop_first(), c.drop_first());
    }
}

pub proof fn text_less_total(a: Seq<char>, b: Seq<char>)
    ensures
        a == b || text_less(a, b) || text_less(b, a),
    decreases a.len(),
{
    if a.len() == 0 && b.len() == 0 {
        assert(a =~= b);
    } else if a.len() > 0 && b.len() > 0 && a[0] == b[0] {
        text_less_total(a.drop_first(), b.drop_first());
        assert(a =~= seq![a[0]] + a.drop_first());
        assert(b =~= seq![b[0]] + b.drop_first());
    }
}

/// The scalar value of a character.
pub fn scalar(c: char) -> (r: u32)
    ensures
        r == c as int,
{
    c as u32
}

/// How two texts compare in the order of [`text_less`].
#[derive(Clone, Copy, PartialEq, Eq, Structural)]
pub enum TextOrder {
    Less,
    Equal,
    Greater,
}

/// Compares two texts.
pub fn order_texts(a: &str, b: &str) -> (r: TextOrder)
    ensures
        r == TextOrder::Less <==> text_less(a@, b@),
        r == TextOrder::Equal <==> a@ == b@,
        r == TextOrder::Greater <==> text_less(b@, a@),
{
    let x = chars_of(a);
    let y = chars_of(b);
    let mut i: usize = 0;
    proof {
        assert(x@.skip(0) =~= x@);
        assert(y@.skip(0) =~= y@);
    }
    while i < x.len() && i < y.len() && x[i] == y[i]
        invariant
            i <= x@.len(),
            i <= y@.len(),
            x@ == a@,
            y@ == b@,
            x@.take(i as int) == y@.take(i as int),
            text_less(a@, b@) == text_less(x@.skip(i as int), y@.skip(i as int)),
            text_less(b@, a@) == text_less(y@.skip(i as int), x@.skip(i as int)),
        decreases x@.len() - i,
    {
        proof {
            assert(x@.skip(i as int).drop_first() =~= x@.skip(i + 1));
            assert(y@.skip(i as int).drop_first() =~= y@.skip(i + 1));
            assert(x@.take(i + 1) =~= x@.take(i as int).push(x@[i as int]));
            assert(y@.take(i + 1) =~= y@.take(i as int).push(y@[i as int]));
        }
        i = i + 1;
    }
    proof {
        text_less_irreflexive(a@);
        if a@ == b@ {
            assert(x@.len() == y@.len());
            if i < x@.len() {
                assert(x@[i as int] == y@[i as int]);
            }
        }
    }
    if i == x.len() {
        if i == y.len() {
            assert(x@.take(i as int) =~= x@);
            assert(y@.take(i as int) =~= y@);
            TextOrder::Equal
        } else {
            TextOrder::Less
        }
    } else if i == y.len() {
        TextOrder::Greater
    } else if scalar(x[i]) < scalar(y[i]) {
        TextOrder::Less
    } else {
        TextOrder::Greater
    }
}


/// `needle` stands in `hay` at index `i`.
pub open spec fn occurs_at(hay: Seq<char>, needle: Seq<char>, i: int) -> bool {
    0 <= i && i + needle.len() <= hay.len() && hay.subrange(i, i + needle.len()) == needle
}

/// `needle` stands somewhere in `hay`.
pub open spec fn contains_text(hay: Seq<char>, needle: Seq<char>) -> bool {
    exists|i: int| occurs_at(hay, needle, i)
}

/// Whether `needle` stands in `hay` at index `i`.
pub fn text_at(hay: &Vec<char>, needle: &Vec<char>, i: usize) -> (r: bool)
    ensures
        r == occurs_at(hay@, needle@, i as int),
{
    if i > hay.len() || needle.len() > hay.len() - i {
        return false;
    }
    let ghost window = hay@.subrange(i as int, i + needle@.len());
    let size = hay.len();
    let mut j: usize = 0;
    while j < needle.len()
        invariant
            j <= needle@.len(),
            i + needle@.len() <= hay@.len() == size,
            window == hay@.subrange(i as int, i + needle@.len()),
            forall|k: int| 0 <= k < j ==> #[trigger] window[k] == needle@[k],
        decreases needle@.len() - j,
    {
        if hay[i + j] != needle[j] {
            assert(window[j as int] != needle@[j as int]);
            return false;
        }
        j = j + 1;
    }
    assert(window =~= needle@);
    true
}

/// Whether `needle` stands somewhere in `hay`.
pub fn has_text(hay: &Vec<char>, needle: &str) -> (r: bool)
    ensures
        r == contains_text(hay@, needle@),
{
    let wanted = chars_of(needle);
    let mut i: usize = 0;
    while i < hay.len()
        invariant
            i <= hay@.len(),
            wanted@ == needle@,
            forall|k: int| 0 <= k < i ==> !occurs_at(hay@, needle@, k),
        decreases hay@.len() - i,
    {
        if text_at(hay, &wanted, i) {
            return true;
        }
        i = i + 1;
    }
    text_at(hay, &wanted, i)
}

/// Whether `s` begins with `prefix`.
pub fn begins_with(s: &Vec<char>, prefix: &str) -> (r: bool)
    ensures
        r == prefix@.is_prefix_of(s@),
{
    let p = chars_of(prefix);
    text_at(s, &p, 0)
}

/// Whether `s` ends with `suffix`.
pub fn finishes_with(s: &Vec<char>, suffix: &str) -> (r: bool)
    ensures
        r == suffix@.is_suffix_of(s@),
{
    let p = chars_of(suffix);
    if p.len() > s.len() {
        return false;
    }
    text_at(s, &p, s.len() - p.len())
}

/// The number of bytes of the UTF-8 encoding.
pub open spec fn utf8_len(s: Seq<char>) -> nat {
    vstd::utf8::encode_utf8(s).len()
}

pub proof fn encode_concat(a: Seq<char>, b: Seq<char>)
    ensures
        vstd::utf8::encode_utf8(a + b) == vstd::utf8::encode_utf8(a) + vstd::utf8::encode_utf8(b),
        utf8_len(a + b) == utf8_len(a) + utf8_len(b),
    decreases a.len(),
{
    if a.len() == 0 {
        assert(a + b =~= b);
        assert(vstd::utf8::encode_utf8(a) =~= Seq::<u8>::empty());
    } else {
        encode_concat(a.drop_first(), b);
        assert((a + b).drop_first() =~= a.drop_first() + b);
        assert((a + b)[0] == a[0]);
    }
    assert(vstd::utf8::encode_utf8(a + b) =~= vstd::utf8::encode_utf8(a)
        + vstd::utf8::encode_utf8(b));
}

/// The number of bytes of the encoding of one character.
pub fn utf8_width(c: char) -> (r: usize)
    ensures
        r == utf8_len(seq![c]),
        1 <= r <= 4,
{
    let code = scalar(c);
    proof {
        vstd::utf8::char_is_scalar(c);
        assert(seq![c].drop_first() =~= Seq::<char>::empty());
        reveal_with_fuel(vstd::utf8::encode_utf8, 2);
    }
    if code <= 0x7f {
        1
    } else if code <= 0x7ff {
        2
    } else if code <= 0xffff {
        3
    } else {
        4
    }
}

/// The byte offsets of the characters of a text, and its byte length: entry `i`
/// is the number of bytes before character `i`.
pub fn byte_offsets(text: &str, chars: &Vec<char>) -> (r: Vec<usize>)
    requires
        chars@ == text@,
    ensures
        r@.len() == text@.len() + 1,
        forall|i: int| 0 <= i <= text@.len() ==> #[trigger] r@[i] == utf8_len(text@.take(i)),
{
    let bytes = text.as_bytes();
    let total = bytes.len();
    let mut r: Vec<usize> = Vec::new();
    r.push(0);
    let mut i: usize = 0;
    let mut at: usize = 0;
    proof {
        assert(text@.take(0) =~= Seq::<char>::empty());
    }
    while i < chars.len()
        invariant
            i <= chars@.len(),
            chars@ == text@,
            total == utf8_len(text@),
            at == utf8_len(text@.take(i as int)),
            r@.len() == i + 1,
            forall|k: int| 0 <= k <= i ==> #[trigger] r@[k] == utf8_len(text@.take(k)),
        decreases chars@.len() - i,
    {
        proof {
            encode_concat(text@.take(i as int), seq![text@[i as int]]);
            assert(text@.take(i as int) + seq![text@[i as int]] =~= text@.take(i + 1));
            encode_concat(text@.take(i + 1), text@.skip(i + 1));
            assert(text@.take(i + 1) + text@.skip(i + 1) =~= text@);
        }
        at = at + utf8_width(chars[i]);
        r.push(at);
        i = i + 1;
    }
    r
}


/// The characters with the Unicode property `White_Space`.
pub open spec fn is_white_space(c: char) -> bool {
    let code = c as int;
    ||| 0x9 <= code <= 0xd
    ||| code == 0x20
    ||| code == 0x85
    ||| code == 0xa0
    ||| code == 0x1680
    ||| 0x2000 <= code <= 0x200a
    ||| code == 0x2028
    ||| code == 0x2029
    ||| code == 0x202f
    ||| code == 0x205f
    ||| code == 0x3000
}

/// Whether `c` has the Unicode property `White_Space`.
pub fn white_space(c: char) -> (r: bool)
    ensures
        r == is_white_space(c),
{
    let code = scalar(c);
    (0x9 <= code && code <= 0xd) || code == 0x20 || code == 0x85 || code == 0xa0 || code == 0x1680
        || (0x2000 <= code && code <= 0x200a) || code == 0x2028 || code == 0x2029 || code == 0x202f
        || code == 0x205f || code == 0x3000
}

/// `s` without leading white space.
pub open spec fn trimmed_front(s: Seq<char>) -> Seq<char>
    decreases s.len(),
{
    if s.len() > 0 && is_white_space(s[0]) {
        trimmed_front(s.skip(1))
    } else {
        s
    }
}

/// `s` without trailing white space.
pub open spec fn trimmed_back(s: Seq<char>) -> Seq<char>
    decreases s.len(),
{
    if s.len() > 0 && is_white_space(s.last()) {
        trimmed_back(s.drop_last())
    } else {
        s
    }
}

/// `s` without leading and trailing white space.
pub open spec fn trimmed(s: Seq<char>) -> Seq<char> {
    trimmed_back(trimmed_front(s))
}

/// Trims a text: leading and trailing white space is left out.
pub fn trim(s: &str) -> (r: String)
    ensures
        r@ == trimmed(s@),
{
    let chars = chars_of(s);
    let ghost all = s@;
    let mut from: usize = 0;
    proof {
        assert(all.skip(0) =~= all);
    }
    while from < chars.len() && white_space(chars[from])
        invariant
            from <= chars@.len(),
            chars@ == all,
            trimmed_front(all) == trimmed_front(all.skip(from as int)),
        decreases chars@.len() - from,
    {
        proof {
            assert(all.skip(from as int).skip(1) =~= all.skip(from + 1));
        }
        from = from + 1;
    }
    let ghost rest = all.skip(from as int);
    assert(trimmed_front(all) == rest);
    let mut to: usize = chars.len();
    proof {
        assert(all.subrange(from as int, to as int) =~= rest);
    }
    while to > from && white_space(chars[to - 1])
        invariant
            from <= to <= chars@.len(),
            chars@ == all,
            trimmed_back(rest) == trimmed_back(all.subrange(from as int, to as int)),
        decreases to,
    {
        proof {
            assert(all.subrange(from as int, to as int).drop_last() =~= all.subrange(
                from as int,
                to - 1,
            ));
        }
        to = to - 1;
    }
    string_between(&chars, from, to)
}

/// The decimal digit of value `d`.
pub open spec fn digit_char(d: int) -> char {
    (48 + d) as char
}

/// A number in decimal.
pub open spec fn decimal_text(n: nat) -> Seq<char>
    decreases n,
{
    if n < 10 {
        seq![digit_char(n as int)]
    } else {
        decimal_text(n / 10).push(digit_char((n % 10) as int))
    }
}

/// Writes a number in decimal.
pub fn decimal(n: u64) -> (r: String)
    ensures
        r@ == decimal_text(n as nat),
    decreases n,
{
    let digit = (48u8 + (n % 10) as u8) as char;
    if n < 10 {
        let mut r = String::new();
        r.push(digit);
        assert(r@ =~= seq![digit_char(n as int)]);
        r
    } else {
        let mut r = decimal(n / 10);
        r.push(digit);
        r
    }
}

/// The hexadecimal digit of value `d`, in lower case.
pub open spec fn hex_char(d: int) -> char {
    if d < 10 {
        (48 + d) as char
    } else {
        (87 + d) as char
    }
}

/// The last `len` hexadecimal digits of a number.
pub open spec fn hex_text(n: int, len: nat) -> Seq<char>
    decreases len,
{
    if len == 0 {
        Seq::empty()
    } else {
        hex_text(n / 16, (len - 1) as nat).push(hex_char(n % 16))
    }
}

/// Writes the last `len` hexadecimal digits of a number.
pub fn hex(n: u64, len: usize) -> (r: String)
    ensures
        r@ == hex_text(n as int, len as nat),
    decreases len,
{
    if len == 0 {
        return String::new();
    }
    let mut r = hex(n / 16, len - 1);
    let d = (n % 16) as u8;
    r.push(
        if d < 10 {
            (48u8 + d) as char
        } else {
            (87u8 + d) as char
        },
    );
    r
}

/// At most the first `n` characters of `s`.
pub open spec fn first_chars(s: Seq<char>, n: int) -> Seq<char> {
    if n < s.len() {
        s.take(n)
    } else {
        s
    }
}

/// At most the first `n` characters of a text.
pub fn take_chars(s: &str, n: usize) -> (r: String)
    ensures
        r@ == first_chars(s@, n as int),
{
    let chars = chars_of(s);
    if n < chars.len() {
        let r = string_between(&chars, 0, n);
        assert(s@.subrange(0, n as int) =~= s@.take(n as int));
        r
    } else {
        s.to_owned()
    }
}

/// The views of a list of strings.
pub open spec fn texts(v: Seq<String>) -> Seq<Seq<char>> {
    v.map_values(|x: String| x@)
}

/// The parts one after the other, with `separator` between them.
pub open spec fn joined(parts: Seq<Seq<char>>, separator: Seq<char>) -> Seq<char>
    decreases parts.len(),
{
    if parts.len() == 0 {
        Seq::empty()
    } else if parts.len() == 1 {
        parts[0]
    } else {
        joined(parts.drop_last(), separator) + separator + parts.last()
    }
}

/// Puts the parts together, with `separator` between them.
pub fn join(parts: &Vec<String>, separator: &str) -> (r: String)
    ensures
        r@ == joined(texts(parts@), separator@),
{
    let ghost all = texts(parts@);
    let mut r = String::new();
    let mut i: usize = 0;
    assert(all.take(0) =~= Seq::<Seq<char>>::empty());
    while i < parts.len()
        invariant
            i <= parts@.len(),
            all == texts(parts@),
            r@ == joined(all.take(i as int), separator@),
        decreases parts@.len() - i,
    {
        proof {
            assert(all.take(i + 1).drop_last() =~= all.take(i as int));
            assert(all.take(i + 1).last() == parts@[i as int]@);
        }
        if i > 0 {
            r.append(separator);
        }
        r.append(&parts[i]);
        proof {
            if i == 0 {
                assert(Seq::<char>::empty() + parts@[0]@ =~= parts@[0]@);
            }
        }
        i = i + 1;
    }
    assert(all.take(i as int) =~= all);
    r
}

/// The index of the first line feed from `i` on, or the length.
pub open spec fn line_end(s: Seq<char>, i: int) -> int
    decreases s.len() - i,
{
    if 0 <= i < s.len() && s[i] != '\n' {
        line_end(s, i + 1)
    } else {
        i
    }
}

/// A line without the carriage return that ends it.
pub open spec fn without_return(line: Seq<char>) -> Seq<char> {
    if line.len() > 0 && line.last() == '\r' {
        line.drop_last()
    } else {
        line
    }
}

/// The lines of `s` from index `i` on. Lines end with a line feed, or with a
/// carriage return and a line feed; the last ending is optional.
pub open spec fn lines_from(s: Seq<char>, i: int) -> Seq<Seq<char>>
    decreases s.len() - i,
{
    if !(0 <= i < s.len()) {
        Seq::empty()
    } else {
        let end = line_end(s, i);
        proof {
            line_end_bounds(s, i);
        }
        if end < s.len() {
            seq![without_return(s.subrange(i, end))] + lines_from(s, end + 1)
        } else {
            seq![s.subrange(i, s.len() as int)]
        }
    }
}

pub proof fn line_end_bounds(s: Seq<char>, i: int)
    requires
        0 <= i <= s.len(),
    ensures
        i <= line_end(s, i) <= s.len(),
    decreases s.len() - i,
{
    if i < s.len() && s[i] != '\n' {
        line_end_bounds(s, i + 1);
    }
}

/// The lines of a text.
pub open spec fn lines_of(s: Seq<char>) -> Seq<Seq<char>> {
    lines_from(s, 0)
}

/// Splits a text into lines.
pub fn lines(s: &str) -> (r: Vec<String>)
    ensures
        texts(r@) == lines_of(s@),
{
    let chars = chars_of(s);
    let size = chars.len();
    let ghost all = s@;
    let mut r: Vec<String> = Vec::new();
    let mut i: usize = 0;
    assert(texts(r@) =~= Seq::<Seq<char>>::empty());
    assert(texts(r@) + lines_from(all, 0) =~= lines_of(all));
    while i < size
        invariant
            i <= size,
            size == chars@.len(),
            chars@ == all,
            lines_of(all) == texts(r@) + lines_from(all, i as int),
        decreases size - i,
    {
        let ghost before = texts(r@);
        let mut end: usize = i;
        while end < size && chars[end] != '\n'
            invariant
                i <= end <= size,
                size == chars@.len(),
                chars@ == all,
                line_end(all, i as int) == line_end(all, end as int),
            decreases size - end,
        {
            end = end + 1;
        }
        if end < size {
            let to: usize = if end > i && chars[end - 1] == '\r' {
                end - 1
            } else {
                end
            };
            let line = string_between(&chars, i, to);
            let ghost text = line@;
            r.push(line);
            proof {
                let whole = all.subrange(i as int, end as int);
                if end > i {
                    assert(whole.last() == all[end - 1]);
                    assert(whole.drop_last() =~= all.subrange(i as int, end - 1));
                }
                assert(text =~= without_return(whole));
                assert(texts(r@) =~= before.push(text));
                assert(before + (seq![text] + lines_from(all, end + 1)) =~= before.push(text)
                    + lines_from(all, end + 1));
            }
            i = end + 1;
        } else {
            let line = string_between(&chars, i, size);
            let ghost text = line@;
            r.push(line);
            proof {
                assert(texts(r@) =~= before.push(text));
                assert(before + seq![text] =~= before.push(text));
                assert(before.push(text) + Seq::<Seq<char>>::empty() =~= before.push(text));
            }
            i = size;
        }
    }
    assert(texts(r@) + Seq::<Seq<char>>::empty() =~= texts(r@));
    r
}

/// Putting parts together: one part is itself, and the parts of two lists stand one
/// list after the other, with the separator between.
pub proof fn joined_in_order(a: Seq<Seq<char>>, b: Seq<Seq<char>>, separator: Seq<char>)
    ensures
        joined(Seq::<Seq<char>>::empty(), separator) == Seq::<char>::empty(),
        a.len() == 1 ==> joined(a, separator) == a[0],
        a.len() > 0 && b.len() > 0 ==> joined(a + b, separator) == joined(a, separator) + separator
            + joined(b, separator),
    decreases b.len(),
{
    if a.len() > 0 && b.len() > 0 {
        let all = a + b;
        assert(all.drop_last() =~= a + b.drop_last());
        assert(all.last() == b.last());
        if b.len() == 1 {
            assert(a + b.drop_last() =~= a);
        } else {
            joined_in_order(a, b.drop_last(), separator);
            assert(joined(a, separator) + separator + joined(b.drop_last(), separator) + separator
                + b.last() =~= joined(a, separator) + separator + (joined(b.drop_last(), separator)
                + separator + b.last()));
        }
    }
}

/// Each part stands in the whole. Returns what stands before and behind it.
pub proof fn joined_holds_each(parts: Seq<Seq<char>>, separator: Seq<char>, i: int) -> (r: (
    Seq<char>,
    Seq<char>,
))
    requires
        0 <= i < parts.len(),
    ensures
        joined(parts, separator) == r.0 + parts[i] + r.1,
    decreases parts.len(),
{
    if parts.len() == 1 {
        assert(Seq::<char>::empty() + parts[i] + Seq::<char>::empty() =~= parts[0]);
        (Seq::empty(), Seq::empty())
    } else if i == parts.len() - 1 {
        let front = joined(parts.drop_last(), separator) + separator;
        assert(front + parts[i] + Seq::<char>::empty() =~= front + parts.last());
        (front, Seq::empty())
    } else {
        let (front, back) = joined_holds_each(parts.drop_last(), separator, i);
        assert(front + parts[i] + back + separator + parts.last() =~= front + parts[i] + (back
            + separator + parts.last()));
        (front, back + separator + parts.last())
    }
}

/// The decimal digits of a number: one digit for a number below ten, and the last
/// digit of a larger one is what remains after division by ten.
pub proof fn decimal_digits(n: nat, d: nat)
    requires
        d < 10,
    ensures
        n < 10 ==> decimal_text(n) == seq![(48 + n) as char],
        n > 0 ==> decimal_text((10 * n + d) as nat) == decimal_text(n).push((48 + d) as char),
{
    if n > 0 {
        assert((10 * n + d) / 10 == n && (10 * n + d) % 10 == d) by (nonlinear_arith)
            requires
                d < 10,
        ;
    }
}

/// Different numbers have different digits.
pub proof fn decimal_tells_apart(a: nat, b: nat)
    requires
        decimal_text(a) == decimal_text(b),
    ensures
        a == b,
    decreases a,
{
    decimal_not_empty(a);
    decimal_not_empty(b);
    if a >= 10 && b >= 10 {
        let x = decimal_text(a);
        let y = decimal_text(b);
        assert(x.drop_last() =~= decimal_text(a / 10));
        assert(y.drop_last() =~= decimal_text(b / 10));
        decimal_tells_apart(a / 10, b / 10);
        assert(x.last() == digit_char((a % 10) as int));
        assert(y.last() == digit_char((b % 10) as int));
        assert(digit_char((a % 10) as int) as int == 48 + a % 10);
        assert(digit_char((b % 10) as int) as int == 48 + b % 10);
        assert(a % 10 == b % 10);
        assert(a == 10 * (a / 10) + a % 10);
    } else if a >= 10 {
        decimal_not_empty(a / 10);
        assert(decimal_text(a).len() >= 2);
        assert(decimal_text(b).len() == 1);
    } else if b >= 10 {
        decimal_not_empty(b / 10);
        assert(decimal_text(b).len() >= 2);
        assert(decimal_text(a).len() == 1);
    } else {
        assert(decimal_text(a)[0] == digit_char(a as int));
        assert(decimal_text(b)[0] == digit_char(b as int));
        assert(digit_char(a as int) as int == 48 + a);
        assert(digit_char(b as int) as int == 48 + b);
    }
}

proof fn decimal_not_empty(n: nat)
    ensures
        decimal_text(n).len() >= 1,
{
}

/// The hexadecimal digits of a number: as many as are asked for, and the last digit
/// is what remains after division by sixteen.
pub proof fn hex_digits(n: int, len: nat)
    requires
        0 <= n,
    ensures
        hex_text(n, len).len() == len,
        len > 0 ==> hex_text(n, len).drop_last() == hex_text(n / 16, (len - 1) as nat),
        len > 0 && n % 16 < 10 ==> hex_text(n, len).last() == (48 + n % 16) as char,
        len > 0 && n % 16 >= 10 ==> hex_text(n, len).last() == (87 + n % 16) as char,
    decreases len,
{
    if len > 0 {
        hex_digits(n / 16, (len - 1) as nat);
        assert(hex_text(n, len).drop_last() =~= hex_text(n / 16, (len - 1) as nat));
    }
}

/// Only white space is trimmed, and all of it. Returns what was before and behind
/// the trimmed text.
pub proof fn trimming_takes_white_space(s: Seq<char>) -> (r: (Seq<char>, Seq<char>))
    ensures
        s == r.0 + trimmed(s) + r.1,
        forall|i: int| 0 <= i < r.0.len() ==> is_white_space(#[trigger] r.0[i]),
        forall|i: int| 0 <= i < r.1.len() ==> is_white_space(#[trigger] r.1[i]),
        trimmed(s).len() > 0 ==> !is_white_space(trimmed(s)[0]) && !is_white_space(
            trimmed(s).last(),
        ),
{
    let front = trimmed_front_rest(s);
    let back = trimmed_back_rest(trimmed_front(s));
    assert(s =~= front + trimmed(s) + back);
    if trimmed(s).len() > 0 {
        assert(trimmed(s)[0] == trimmed_front(s)[0]);
    }
    (front, back)
}

proof fn trimmed_front_rest(s: Seq<char>) -> (front: Seq<char>)
    ensures
        s == front + trimmed_front(s),
        forall|i: int| 0 <= i < front.len() ==> is_white_space(#[trigger] front[i]),
        trimmed_front(s).len() > 0 ==> !is_white_space(trimmed_front(s)[0]),
    decreases s.len(),
{
    if s.len() > 0 && is_white_space(s[0]) {
        let rest = trimmed_front_rest(s.skip(1));
        let front = seq![s[0]] + rest;
        assert(s =~= seq![s[0]] + s.skip(1));
        assert(s =~= front + trimmed_front(s));
        assert forall|i: int| 0 <= i < front.len() implies is_white_space(#[trigger] front[i]) by {
            if i > 0 {
                assert(front[i] == rest[i - 1]);
            }
        }
        front
    } else {
        assert(s =~= Seq::<char>::empty() + s);
        Seq::empty()
    }
}

proof fn trimmed_back_rest(s: Seq<char>) -> (back: Seq<char>)
    ensures
        s == trimmed_back(s) + back,
        forall|i: int| 0 <= i < back.len() ==> is_white_space(#[trigger] back[i]),
        trimmed_back(s).len() > 0 ==> !is_white_space(trimmed_back(s).last()),
    decreases s.len(),
{
    if s.len() > 0 && is_white_space(s.last()) {
        let rest = trimmed_back_rest(s.drop_last());
        let back = rest.push(s.last());
        assert(s =~= s.drop_last().push(s.last()));
        assert(s =~= trimmed_back(s) + back);
        assert forall|i: int| 0 <= i < back.len() implies is_white_space(#[trigger] back[i]) by {
            if i < rest.len() {
                assert(back[i] == rest[i]);
            }
        }
        back
    } else {
        assert(s =~= s + Seq::<char>::empty());
        Seq::empty()
    }
}

/// The lines of a text: a line goes to the next line feed, and what follows the line
/// feed has lines of its own. A text without a line feed is one line.
pub proof fn lines_end_with_line_feeds(line: Seq<char>, rest: Seq<char>)
    requires
        forall|i: int| 0 <= i < line.len() ==> #[trigger] line[i] != '\n',
    ensures
        line.len() > 0 ==> lines_of(line) == seq![line],
        lines_of(line + seq!['\n'] + rest) == seq![
            if line.len() > 0 && line.last() == '\r' {
                line.drop_last()
            } else {
                line
            },
        ] + lines_of(rest),
{
    if line.len() > 0 {
        line_end_found(line, 0, line.len() as int);
        assert(line.subrange(0, line.len() as int) =~= line);
    }
    let front = line + seq!['\n'];
    let s = front + rest;
    assert(s =~= line + seq!['\n'] + rest);
    assert(s[line.len() as int] == '\n');
    line_end_found(s, 0, line.len() as int);
    assert(s.subrange(0, line.len() as int) =~= line);
    lines_shift(front, rest, 0);
}

proof fn line_end_found(s: Seq<char>, i: int, end: int)
    requires
        0 <= i <= end <= s.len(),
        forall|k: int| i <= k < end ==> #[trigger] s[k] != '\n',
        end < s.len() ==> s[end] == '\n',
    ensures
        line_end(s, i) == end,
    decreases end - i,
{
    if i < end {
        line_end_found(s, i + 1, end);
    }
}

proof fn lines_shift(front: Seq<char>, rest: Seq<char>, i: int)
    requires
        0 <= i <= rest.len(),
    ensures
        lines_from(front + rest, front.len() + i) == lines_from(rest, i),
    decreases rest.len() - i,
{
    let s = front + rest;
    let n = front.len() as int;
    if i < rest.len() {
        line_end_bounds(rest, i);
        let end = line_end(rest, i);
        line_end_shift(front, rest, i);
        assert(s.subrange(n + i, n + end) =~= rest.subrange(i, end));
        if end < rest.len() {
            lines_shift(front, rest, end + 1);
        } else {
            assert(s.subrange(n + i, s.len() as int) =~= rest.subrange(i, rest.len() as int));
        }
    }
}

proof fn line_end_shift(front: Seq<char>, rest: Seq<char>, i: int)
    requires
        0 <= i <= rest.len(),
    ensures
        line_end(front + rest, front.len() + i) == front.len() + line_end(rest, i),
    decreases rest.len() - i,
{
    if i < rest.len() && rest[i] != '\n' {
        line_end_shift(front, rest, i + 1);
    }
}

/// The first characters of a text: all of it if it is short enough, and otherwise as
/// many as are asked for.
pub proof fn first_chars_are_taken(s: Seq<char>, n: int)
    requires
        0 <= n,
    ensures
        s.len() <= n ==> first_chars(s, n) == s,
        s.len() > n ==> first_chars(s, n) == s.subrange(0, n),
{
}

/// A text is found wherever it stands, and only where it stands: `contains_text` is
/// true exactly of texts that are something, then the text, then something.
pub proof fn texts_are_found_anywhere(before: Seq<char>, needle: Seq<char>, after: Seq<char>)
    ensures
        contains_text(before + needle + after, needle),
        forall|hay: Seq<char>| #[trigger]
            contains_text(hay, needle) ==> exists|i: int|
                0 <= i <= hay.len() - needle.len() && #[trigger] hay.subrange(
                    i,
                    i + needle.len(),
                ) == needle,
{
    let hay = before + needle + after;
    assert(hay.subrange(before.len() as int, before.len() as int + needle.len()) =~= needle);
    assert(occurs_at(hay, needle, before.len() as int));
    assert forall|hay: Seq<char>| #[trigger] contains_text(hay, needle) implies exists|i: int|
        0 <= i <= hay.len() - needle.len() && #[trigger] hay.subrange(i, i + needle.len())
            == needle by {
        let i = choose|i: int| occurs_at(hay, needle, i);
        assert(hay.subrange(i, i + needle.len()) == needle);
    }
}

/// A text that was trimmed is not trimmed any further.
pub proof fn trimming_again_changes_nothing(s: Seq<char>)
    ensures
        trimmed(trimmed(s)) == trimmed(s),
{
    let around = trimming_takes_white_space(s);
}

} // verus!
