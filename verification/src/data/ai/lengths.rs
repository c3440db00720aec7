//! The lengths of the streams in a PDF file.
//!
//! A stream says how long it is, with a number or with a reference to an object
//! that is a number. A reader that goes after such a reference while it reads the
//! stream may be led in a circle. So before a file is read, each reference is
//! replaced by the number of bytes up to the word that ends the stream. That keeps
//! its size, for objects are found by their place in the file.
use crate::text::same_bytes;
use vstd::prelude::*;

verus! {

/// Space between words.
pub open spec fn is_space(b: u8) -> bool {
    b == 0 || b == 9 || b == 10 || b == 12 || b == 13 || b == 32
}

/// A decimal digit.
pub open spec fn is_digit(b: u8) -> bool {
    48 <= b <= 57
}

/// A byte that a name goes on with.
pub open spec fn is_regular(b: u8) -> bool {
    !is_space(b) && b != 37 && b != 40 && b != 41 && b != 47 && b != 60 && b != 62 && b != 91 && b
        != 93 && b != 123 && b != 125
}

/// The value of a hexadecimal digit.
pub open spec fn hex_value(b: u8) -> Option<int> {
    if 48 <= b <= 57 {
        Some(b - 48)
    } else if 65 <= b <= 70 {
        Some(b - 55)
    } else if 97 <= b <= 102 {
        Some(b - 87)
    } else {
        None
    }
}

/// The place after the spaces at `i`.
pub open spec fn after_spaces(bytes: Seq<u8>, i: int) -> int
    decreases bytes.len() - i,
{
    if 0 <= i < bytes.len() && is_space(bytes[i]) {
        after_spaces(bytes, i + 1)
    } else {
        i
    }
}

/// The place after the digits at `i`.
pub open spec fn after_digits(bytes: Seq<u8>, i: int) -> int
    decreases bytes.len() - i,
{
    if 0 <= i < bytes.len() && is_digit(bytes[i]) {
        after_digits(bytes, i + 1)
    } else {
        i
    }
}

/// The place after the letter `c` of a name at `i`. A letter stands for itself, or is
/// written as a number sign and two hexadecimal digits.
pub open spec fn after_letter(bytes: Seq<u8>, i: int, c: u8) -> Option<int> {
    if 0 <= i < bytes.len() && bytes[i] == c {
        Some(i + 1)
    } else if 0 <= i && i + 2 < bytes.len() && bytes[i] == 35 {
        match (hex_value(bytes[i + 1]), hex_value(bytes[i + 2])) {
            (Some(high), Some(low)) => if 16 * high + low == c {
                Some(i + 3)
            } else {
                None
            },
            _ => None,
        }
    } else {
        None
    }
}

/// The place after the letters `letters[k..]` of a name at `i`.
pub open spec fn after_letters(bytes: Seq<u8>, i: int, letters: Seq<u8>, k: int) -> Option<int>
    decreases letters.len() - k,
{
    if k < 0 || k >= letters.len() {
        Some(i)
    } else {
        match after_letter(bytes, i, letters[k]) {
            Some(next) => after_letters(bytes, next, letters, k + 1),
            None => None,
        }
    }
}

/// The bytes of `Length`.
pub open spec fn length_letters() -> Seq<u8> {
    seq![76u8, 101, 110, 103, 116, 104]
}

/// The place after the name `Length` at `p`, if it stands there.
pub open spec fn after_length(bytes: Seq<u8>, p: int) -> Option<int> {
    if 0 <= p < bytes.len() && bytes[p] == 47 {
        match after_letters(bytes, p + 1, length_letters(), 0) {
            Some(e) => if e < bytes.len() && is_regular(bytes[e]) {
                None
            } else {
                Some(e)
            },
            None => None,
        }
    } else {
        None
    }
}

/// A number stands at `e`, and the next entry or the end of the dictionary after it.
pub open spec fn number_follows(bytes: Seq<u8>, e: int) -> bool {
    let from = after_spaces(bytes, e);
    let to = after_digits(bytes, from);
    let next = after_spaces(bytes, to);
    from < to && next < bytes.len() && (bytes[next] == 47 || bytes[next] == 62)
}

/// A length stands at `p` that is not given by a number.
pub open spec fn is_open_length(bytes: Seq<u8>, p: int) -> bool {
    match after_length(bytes, p) {
        Some(e) => !number_follows(bytes, e),
        None => false,
    }
}

/// Every length in a file is given by a number.
pub open spec fn has_plain_lengths(bytes: Seq<u8>) -> bool {
    forall|p: int| 0 <= p < bytes.len() ==> !#[trigger] is_open_length(bytes, p)
}

/// The place of what follows the number and generation of an object at `e`.
pub open spec fn name_at(bytes: Seq<u8>, e: int) -> Option<int> {
    let a = after_spaces(bytes, e);
    let b = after_digits(bytes, a);
    let c = after_spaces(bytes, b);
    let d = after_digits(bytes, c);
    let next = after_spaces(bytes, d);
    if a < b < c < d < next {
        Some(next)
    } else {
        None
    }
}

/// A word stands at `i`.
pub open spec fn word_at(bytes: Seq<u8>, i: int, word: Seq<u8>) -> bool {
    0 <= i && i + word.len() <= bytes.len() && bytes.subrange(i, i + word.len()) == word
}

/// The first place from `i` on at which a word stands.
pub open spec fn find_word(bytes: Seq<u8>, i: int, word: Seq<u8>) -> Option<int>
    decreases bytes.len() - i,
{
    if i < 0 || i >= bytes.len() {
        None
    } else if word_at(bytes, i, word) {
        Some(i)
    } else {
        find_word(bytes, i + 1, word)
    }
}

/// The bytes of `stream`.
pub open spec fn stream_word() -> Seq<u8> {
    seq![115u8, 116, 114, 101, 97, 109]
}

/// The bytes of `endstream`.
pub open spec fn end_word() -> Seq<u8> {
    seq![101u8, 110, 100, 115, 116, 114, 101, 97, 109]
}

/// The place after the end of a line at `i`.
pub open spec fn after_line(bytes: Seq<u8>, i: int) -> Option<int> {
    if word_at(bytes, i, seq![13u8, 10]) {
        Some(i + 2)
    } else if word_at(bytes, i, seq![13u8]) || word_at(bytes, i, seq![10u8]) {
        Some(i + 1)
    } else {
        None
    }
}

/// The place before the end of a line that ends at `e`, but none before `from`.
pub open spec fn before_line(bytes: Seq<u8>, from: int, e: int) -> int {
    if e - 2 >= from && word_at(bytes, e - 2, seq![13u8, 10]) {
        e - 2
    } else if e - 1 >= from && (word_at(bytes, e - 1, seq![13u8]) || word_at(
        bytes,
        e - 1,
        seq![10u8],
    )) {
        e - 1
    } else {
        e
    }
}

/// Where the first stream from `i` on begins: after the word and the end of its line.
pub open spec fn find_stream(bytes: Seq<u8>, i: int) -> Option<int>
    decreases bytes.len() - i,
{
    if i < 0 || i >= bytes.len() {
        None
    } else if word_at(bytes, i, stream_word()) && after_line(bytes, i + 6) is Some {
        after_line(bytes, i + 6)
    } else {
        find_stream(bytes, i + 1)
    }
}

/// How many bytes the first stream from `i` on holds: those up to the word that ends
/// it, or to the end of the line before that.
pub open spec fn stream_size(bytes: Seq<u8>, i: int) -> Option<nat> {
    match find_stream(bytes, i) {
        Some(from) => match find_word(bytes, from, end_word()) {
            Some(e) => Some((before_line(bytes, from, e) - from) as nat),
            None => None,
        },
        None => None,
    }
}

/// A number in decimal digits.
pub open spec fn decimal(n: nat) -> Seq<u8>
    decreases n,
{
    if n < 10 {
        seq![(48 + n) as u8]
    } else {
        decimal(n / 10).push((48 + n % 10) as u8)
    }
}

/// What an open length at `p` is replaced by. If it is a reference, and there is room
/// for the digits, the size of the next stream. Otherwise another name, which has no
/// meaning.
pub open spec fn closed_length(bytes: Seq<u8>, p: int) -> Seq<u8> {
    let hidden = seq![47u8, 88];
    match after_length(bytes, p) {
        Some(e) => match name_at(bytes, e) {
            Some(r) => {
                let q = after_spaces(bytes, r + 1);
                match stream_size(bytes, q) {
                    Some(n) => if word_at(bytes, r, seq![82u8]) && 8 + decimal(n).len() <= q - p {
                        seq![47u8] + length_letters() + seq![32u8] + decimal(n) + Seq::new(
                            (q - p - 8 - decimal(n).len()) as nat,
                            |i: int| 32u8,
                        )
                    } else {
                        hidden
                    },
                    None => hidden,
                }
            },
            None => hidden,
        },
        None => hidden,
    }
}

/// The bytes from `i` on, with every open length replaced.
pub open spec fn closed_from(bytes: Seq<u8>, i: int) -> Seq<u8>
    decreases bytes.len() - i,
{
    if i < 0 || i >= bytes.len() {
        Seq::empty()
    } else if is_open_length(bytes, i) {
        let entry = closed_length(bytes, i);
        if entry.len() > 0 {
            entry + closed_from(bytes, i + entry.len())
        } else {
            Seq::empty()
        }
    } else {
        seq![bytes[i]] + closed_from(bytes, i + 1)
    }
}

/// A file with its open lengths replaced.
pub open spec fn closed(bytes: Seq<u8>) -> Seq<u8> {
    closed_from(bytes, 0)
}

proof fn lemma_spaces(bytes: Seq<u8>, i: int)
    requires
        0 <= i <= bytes.len(),
    ensures
        i <= after_spaces(bytes, i) <= bytes.len(),
    decreases bytes.len() - i,
{
    if i < bytes.len() && is_space(bytes[i]) {
        lemma_spaces(bytes, i + 1);
    }
}

proof fn lemma_digits(bytes: Seq<u8>, i: int)
    requires
        0 <= i <= bytes.len(),
    ensures
        i <= after_digits(bytes, i) <= bytes.len(),
    decreases bytes.len() - i,
{
    if i < bytes.len() && is_digit(bytes[i]) {
        lemma_digits(bytes, i + 1);
    }
}

/// The place after the spaces at `i`.
fn skip_spaces(bytes: &[u8], i: usize) -> (r: usize)
    requires
        i <= bytes@.len(),
    ensures
        r == after_spaces(bytes@, i as int),
        i <= r <= bytes@.len(),
{
    let mut r: usize = i;
    while r < bytes.len() && (bytes[r] == 0 || bytes[r] == 9 || bytes[r] == 10 || bytes[r] == 12
        || bytes[r] == 13 || bytes[r] == 32)
        invariant
            i <= r <= bytes@.len(),
            after_spaces(bytes@, i as int) == after_spaces(bytes@, r as int),
        decreases bytes@.len() - r,
    {
        r = r + 1;
    }
    r
}

/// The place after the digits at `i`.
fn skip_digits(bytes: &[u8], i: usize) -> (r: usize)
    requires
        i <= bytes@.len(),
    ensures
        r == after_digits(bytes@, i as int),
        i <= r <= bytes@.len(),
{
    let mut r: usize = i;
    while r < bytes.len() && 48 <= bytes[r] && bytes[r] <= 57
        invariant
            i <= r <= bytes@.len(),
            after_digits(bytes@, i as int) == after_digits(bytes@, r as int),
        decreases bytes@.len() - r,
    {
        r = r + 1;
    }
    r
}

/// The value of a hexadecimal digit.
fn hex_digit(b: u8) -> (r: Option<u32>)
    ensures
        match r {
            Some(value) => hex_value(b) == Some(value as int) && value < 16,
            None => hex_value(b) is None,
        },
{
    if 48 <= b && b <= 57 {
        Some((b - 48) as u32)
    } else if 65 <= b && b <= 70 {
        Some((b - 55) as u32)
    } else if 97 <= b && b <= 102 {
        Some((b - 87) as u32)
    } else {
        None
    }
}

/// The place after the letter `c` of a name at `i`.
fn skip_letter(bytes: &[u8], i: usize, c: u8) -> (r: Option<usize>)
    requires
        i <= bytes@.len(),
    ensures
        match r {
            Some(next) => after_letter(bytes@, i as int, c) == Some(next as int) && next
                <= bytes@.len(),
            None => after_letter(bytes@, i as int, c) is None,
        },
{
    if i < bytes.len() && bytes[i] == c {
        return Some(i + 1);
    }
    if bytes.len() - i > 2 && bytes[i] == 35 {
        if let (Some(high), Some(low)) = (hex_digit(bytes[i + 1]), hex_digit(bytes[i + 2])) {
            if 16 * high + low == c as u32 {
                return Some(i + 3);
            }
        }
    }
    None
}

/// The place after the name `Length` at `p`, if it stands there.
fn skip_length(bytes: &[u8], p: usize) -> (r: Option<usize>)
    requires
        p < bytes@.len(),
    ensures
        match r {
            Some(e) => after_length(bytes@, p as int) == Some(e as int) && p < e <= bytes@.len(),
            None => after_length(bytes@, p as int) is None,
        },
{
    if bytes[p] != 47 {
        return None;
    }
    let letters: [u8; 6] = [76, 101, 110, 103, 116, 104];
    assert(letters@ =~= length_letters());
    let mut e: usize = p + 1;
    let mut k: usize = 0;
    while k < 6
        invariant
            k <= 6,
            p < e <= bytes@.len(),
            letters@ == length_letters(),
            after_letters(bytes@, p + 1, length_letters(), 0) == after_letters(
                bytes@,
                e as int,
                length_letters(),
                k as int,
            ),
        decreases 6 - k,
    {
        e = match skip_letter(bytes, e, letters[k]) {
            Some(next) => {
                proof {
                    assert(next > e);
                }
                next
            },
            None => {
                return None;
            },
        };
        k = k + 1;
    }
    if e < bytes.len() {
        let b = bytes[e];
        if b != 0 && b != 9 && b != 10 && b != 12 && b != 13 && b != 32 && b != 37 && b != 40 && b
            != 41 && b != 47 && b != 60 && b != 62 && b != 91 && b != 93 && b != 123 && b != 125 {
            return None;
        }
    }
    Some(e)
}

/// Whether a length stands at `p` that is not given by a number.
fn check_open_length(bytes: &[u8], p: usize) -> (r: bool)
    requires
        p < bytes@.len(),
    ensures
        r == is_open_length(bytes@, p as int),
{
    match skip_length(bytes, p) {
        Some(e) => {
            let from = skip_spaces(bytes, e);
            let to = skip_digits(bytes, from);
            let next = skip_spaces(bytes, to);
            !(from < to && next < bytes.len() && (bytes[next] == 47 || bytes[next] == 62))
        },
        None => false,
    }
}

/// Whether every length in a file is given by a number.
pub fn check_lengths(bytes: &[u8]) -> (r: bool)
    ensures
        r == has_plain_lengths(bytes@),
{
    let mut p: usize = 0;
    while p < bytes.len()
        invariant
            p <= bytes@.len(),
            forall|q: int| 0 <= q < p ==> !#[trigger] is_open_length(bytes@, q),
        decreases bytes@.len() - p,
    {
        if check_open_length(bytes, p) {
            return false;
        }
        p = p + 1;
    }
    true
}

/// The place of what follows the number and generation of an object at `e`.
fn skip_name(bytes: &[u8], e: usize) -> (r: Option<usize>)
    requires
        e <= bytes@.len(),
    ensures
        match r {
            Some(next) => name_at(bytes@, e as int) == Some(next as int) && e < next
                <= bytes@.len(),
            None => name_at(bytes@, e as int) is None,
        },
{
    let a = skip_spaces(bytes, e);
    let b = skip_digits(bytes, a);
    let c = skip_spaces(bytes, b);
    let d = skip_digits(bytes, c);
    let next = skip_spaces(bytes, d);
    if a < b && b < c && c < d && d < next {
        Some(next)
    } else {
        None
    }
}

/// The bytes between two places.
fn slice(bytes: &[u8], from: usize, to: usize) -> (r: &[u8])
    requires
        from <= to <= bytes@.len(),
    ensures
        r@ == bytes@.subrange(from as int, to as int),
{
    vstd::slice::slice_subrange(bytes, from, to)
}

/// Whether a word stands at `i`.
fn check_word(bytes: &[u8], i: usize, word: &[u8]) -> (r: bool)
    requires
        i <= bytes@.len(),
    ensures
        r == word_at(bytes@, i as int, word@),
{
    bytes.len() - i >= word.len() && same_bytes(slice(bytes, i, i + word.len()), word)
}

/// The first place from `i` on at which a word stands.
fn seek_word(bytes: &[u8], i: usize, word: &[u8]) -> (r: Option<usize>)
    requires
        i <= bytes@.len(),
        word@.len() > 0,
    ensures
        match r {
            Some(at) => find_word(bytes@, i as int, word@) == Some(at as int) && i <= at && at
                + word@.len() <= bytes@.len(),
            None => find_word(bytes@, i as int, word@) is None,
        },
{
    let mut at: usize = i;
    while at < bytes.len()
        invariant
            i <= at <= bytes@.len(),
            find_word(bytes@, i as int, word@) == find_word(bytes@, at as int, word@),
        decreases bytes@.len() - at,
    {
        if check_word(bytes, at, word) {
            return Some(at);
        }
        at = at + 1;
    }
    None
}

/// The place after the end of a line at `i`.
fn skip_line(bytes: &[u8], i: usize) -> (r: Option<usize>)
    requires
        i <= bytes@.len(),
    ensures
        match r {
            Some(next) => after_line(bytes@, i as int) == Some(next as int) && next
                <= bytes@.len(),
            None => after_line(bytes@, i as int) is None,
        },
{
    let both: [u8; 2] = [13, 10];
    let first: [u8; 1] = [13];
    let second: [u8; 1] = [10];
    assert(both@ =~= seq![13u8, 10]);
    assert(first@ =~= seq![13u8]);
    assert(second@ =~= seq![10u8]);
    if check_word(bytes, i, &both) {
        assert(i + both@.len() <= bytes.len());
        Some(i + 2)
    } else if check_word(bytes, i, &first) || check_word(bytes, i, &second) {
        assert(i < bytes.len());
        Some(i + 1)
    } else {
        None
    }
}

/// The place before the end of a line that ends at `e`, but none before `from`.
fn cut_line(bytes: &[u8], from: usize, e: usize) -> (r: usize)
    requires
        from <= e <= bytes@.len(),
    ensures
        r == before_line(bytes@, from as int, e as int),
        from <= r <= e,
{
    let both: [u8; 2] = [13, 10];
    let first: [u8; 1] = [13];
    let second: [u8; 1] = [10];
    assert(both@ =~= seq![13u8, 10]);
    assert(first@ =~= seq![13u8]);
    assert(second@ =~= seq![10u8]);
    if e - from >= 2 && check_word(bytes, e - 2, &both) {
        e - 2
    } else if e > from && (check_word(bytes, e - 1, &first) || check_word(bytes, e - 1, &second)) {
        e - 1
    } else {
        e
    }
}

/// Where the first stream from `i` on begins.
fn seek_stream(bytes: &[u8], i: usize) -> (r: Option<usize>)
    requires
        i <= bytes@.len(),
    ensures
        match r {
            Some(from) => find_stream(bytes@, i as int) == Some(from as int) && from
                <= bytes@.len(),
            None => find_stream(bytes@, i as int) is None,
        },
{
    let word: [u8; 6] = [115, 116, 114, 101, 97, 109];
    assert(word@ =~= stream_word());
    let mut at: usize = i;
    while at < bytes.len()
        invariant
            i <= at <= bytes@.len(),
            word@ == stream_word(),
            find_stream(bytes@, i as int) == find_stream(bytes@, at as int),
        decreases bytes@.len() - at,
    {
        if check_word(bytes, at, &word) {
            assert(at + 6 <= bytes.len());
            if let Some(from) = skip_line(bytes, at + 6) {
                return Some(from);
            }
        }
        at = at + 1;
    }
    None
}

/// How many bytes the first stream from `i` on holds.
fn measure_stream(bytes: &[u8], i: usize) -> (r: Option<usize>)
    requires
        i <= bytes@.len(),
    ensures
        match r {
            Some(n) => stream_size(bytes@, i as int) == Some(n as nat),
            None => stream_size(bytes@, i as int) is None,
        },
{
    let end: [u8; 9] = [101, 110, 100, 115, 116, 114, 101, 97, 109];
    assert(end@ =~= end_word());
    match seek_stream(bytes, i) {
        Some(from) => match seek_word(bytes, from, &end) {
            Some(e) => Some(cut_line(bytes, from, e) - from),
            None => None,
        },
        None => None,
    }
}

/// A number in decimal digits.
fn to_decimal(n: usize) -> (r: Vec<u8>)
    ensures
        r@ == decimal(n as nat),
        r@.len() > 0,
    decreases n,
{
    let mut digits: Vec<u8> = if n < 10 {
        Vec::new()
    } else {
        to_decimal(n / 10)
    };
    digits.push(48 + (n % 10) as u8);
    assert(digits@ =~= decimal(n as nat));
    digits
}

/// What the open length at `p` is replaced by.
fn close_length(bytes: &[u8], p: usize) -> (r: Vec<u8>)
    requires
        p < bytes@.len(),
    ensures
        r@ == closed_length(bytes@, p as int),
        r@.len() >= 2,
{
    let mut hidden: Vec<u8> = Vec::new();
    hidden.push(47);
    hidden.push(88);
    assert(hidden@ =~= seq![47u8, 88]);
    let e = match skip_length(bytes, p) {
        Some(e) => e,
        None => {
            return hidden;
        },
    };
    let r = match skip_name(bytes, e) {
        Some(r) => r,
        None => {
            return hidden;
        },
    };
    let word: [u8; 1] = [82];
    assert(word@ =~= seq![82u8]);
    if !check_word(bytes, r, &word) {
        return hidden;
    }
    assert(r < bytes.len());
    let q = skip_spaces(bytes, r + 1);
    let mut digits = match measure_stream(bytes, q) {
        Some(n) => to_decimal(n),
        None => {
            return hidden;
        },
    };
    let size = q - p;
    if size < 8 || digits.len() > size - 8 {
        return hidden;
    }
    let mut entry: Vec<u8> = Vec::new();
    entry.push(47);
    entry.push(76);
    entry.push(101);
    entry.push(110);
    entry.push(103);
    entry.push(116);
    entry.push(104);
    entry.push(32);
    let ghost head = seq![47u8] + length_letters() + seq![32u8];
    assert(entry@ =~= head);
    entry.append(&mut digits);
    let ghost start = entry@;
    assert(start + Seq::new(0, |i: int| 32u8) =~= start);
    while entry.len() < size
        invariant
            start.len() <= entry@.len() <= size,
            entry@ == start + Seq::new((entry@.len() - start.len()) as nat, |i: int| 32u8),
        decreases size - entry@.len(),
    {
        entry.push(32);
        assert(entry@ =~= start + Seq::new((entry@.len() - start.len()) as nat, |i: int| 32u8));
    }
    entry
}

/// A file with its open lengths replaced.
pub fn close_lengths(bytes: &[u8]) -> (r: Vec<u8>)
    ensures
        r@ == closed(bytes@),
{
    let mut out: Vec<u8> = Vec::new();
    let mut i: usize = 0;
    assert(out@ + closed_from(bytes@, 0) =~= closed(bytes@));
    while i < bytes.len()
        invariant
            out@ + closed_from(bytes@, i as int) == closed(bytes@),
        decreases bytes@.len() - i,
    {
        let ghost before = out@;
        if check_open_length(bytes, i) {
            let mut entry = close_length(bytes, i);
            let ghost text = entry@;
            let size = entry.len();
            out.append(&mut entry);
            assert(out@ + closed_from(bytes@, i + size) =~= before + (text + closed_from(
                bytes@,
                i + size,
            )));
            if size >= bytes.len() - i {
                assert(out@ + closed_from(bytes@, i + size) =~= out@);
                return out;
            }
            i = i + size;
        } else {
            out.push(bytes[i]);
            assert(out@ + closed_from(bytes@, i + 1) =~= before + (seq![bytes@[i as int]]
                + closed_from(bytes@, i + 1)));
            i = i + 1;
        }
    }
    assert(out@ + closed_from(bytes@, i as int) =~= out@);
    out
}

proof fn lemma_letters(bytes: Seq<u8>, i: int, letters: Seq<u8>, k: int)
    requires
        0 <= i <= bytes.len(),
        0 <= k <= letters.len(),
    ensures
        after_letters(bytes, i, letters, k) matches Some(e) ==> i + letters.len() - k <= e
            <= bytes.len(),
    decreases letters.len() - k,
{
    if k < letters.len() {
        if let Some(next) = after_letter(bytes, i, letters[k]) {
            lemma_letters(bytes, next, letters, k + 1);
        }
    }
}

proof fn lemma_closed_from(bytes: Seq<u8>, i: int)
    requires
        0 <= i <= bytes.len(),
    ensures
        closed_from(bytes, i).len() == bytes.len() - i,
        has_plain_lengths(bytes) ==> closed_from(bytes, i) == bytes.skip(i),
    decreases bytes.len() - i,
{
    if i < bytes.len() {
        if is_open_length(bytes, i) {
            let e = after_length(bytes, i)->0;
            lemma_letters(bytes, i + 1, length_letters(), 0);
            lemma_spaces(bytes, e);
            let a = after_spaces(bytes, e);
            lemma_digits(bytes, a);
            let b = after_digits(bytes, a);
            lemma_spaces(bytes, b);
            let c = after_spaces(bytes, b);
            lemma_digits(bytes, c);
            lemma_spaces(bytes, after_digits(bytes, c));
            lemma_closed_from(bytes, i + closed_length(bytes, i).len());
        } else {
            lemma_closed_from(bytes, i + 1);
            assert(seq![bytes[i]] + bytes.skip(i + 1) =~= bytes.skip(i));
        }
    }
}

/// Replacing the lengths moves nothing in a file, and changes nothing if they are
/// all given by numbers.
pub proof fn closing_keeps_places(bytes: Seq<u8>)
    ensures
        closed(bytes).len() == bytes.len(),
        has_plain_lengths(bytes) ==> closed(bytes) == bytes,
{
    lemma_closed_from(bytes, 0);
    assert(bytes.skip(0) =~= bytes);
}

proof fn stream_found(bytes: Seq<u8>, i: int, at: int)
    requires
        0 <= i <= at < bytes.len(),
        word_at(bytes, at, stream_word()),
        after_line(bytes, at + 6) is Some,
        forall|j: int| i <= j < at ==> !#[trigger] word_at(bytes, j, stream_word()),
    ensures
        find_stream(bytes, i) == after_line(bytes, at + 6),
    decreases at - i,
{
    if i < at {
        assert(!word_at(bytes, i, stream_word()));
        stream_found(bytes, i + 1, at);
    }
}

proof fn word_found(bytes: Seq<u8>, i: int, word: Seq<u8>, at: int)
    requires
        0 <= i <= at < bytes.len(),
        word_at(bytes, at, word),
        forall|j: int| i <= j < at ==> !#[trigger] word_at(bytes, j, word),
    ensures
        find_word(bytes, i, word) == Some(at),
    decreases at - i,
{
    if i < at {
        assert(!word_at(bytes, i, word));
        word_found(bytes, i + 1, word, at);
    }
}

/// A stream is as long as what stands between the line of the word `stream` and the line
/// of the word `endstream`: the ends of these lines do not count.
pub proof fn streams_are_measured(
    front: Seq<u8>,
    open: Seq<u8>,
    data: Seq<u8>,
    close: Seq<u8>,
    rest: Seq<u8>,
)
    requires
        open == seq![115u8, 116, 114, 101, 97, 109],
        close == seq![101u8, 110, 100, 115, 116, 114, 101, 97, 109],
        data.len() > 0 ==> data[data.len() - 1] != 13,
        ({
            let all = front + open + seq![10u8] + data + seq![10u8] + close + rest;
            let from = front.len() + 7;
            &&& forall|j: int| 0 <= j < front.len() ==> !#[trigger] word_at(all, j, open)
            &&& forall|j: int|
                from <= j <= from + data.len() ==> !#[trigger] word_at(all, j, close)
        }),
    ensures
        stream_size(front + open + seq![10u8] + data + seq![10u8] + close + rest, 0) == Some(
            data.len(),
        ),
{
    let all = front + open + seq![10u8] + data + seq![10u8] + close + rest;
    assert(open == stream_word());
    assert(close == end_word());
    let n = front.len() as int;
    let from = n + 7;
    let end = from + data.len() + 1;
    assert(all.subrange(n, n + 6) =~= stream_word());
    assert(word_at(all, n, stream_word()));
    assert(all[n + 6] == 10);
    assert(all.subrange(n + 6, n + 7) =~= seq![10u8]);
    if word_at(all, n + 6, seq![13u8, 10]) {
        assert(all.subrange(n + 6, n + 8)[0] == 10);
    }
    assert(after_line(all, n + 6) == Some(from));
    stream_found(all, 0, n);
    assert(all.subrange(end, end + 9) =~= end_word());
    assert(word_at(all, end, end_word()));
    word_found(all, from, end_word(), end);
    assert(all[end - 1] == 10);
    assert(all.subrange(end - 1, end) =~= seq![10u8]);
    if end - 2 >= from && word_at(all, end - 2, seq![13u8, 10]) {
        assert(all.subrange(end - 2, end)[0] == 13);
        assert(all[end - 2] == data[data.len() - 1]);
    }
    assert(before_line(all, from, end) == end - 1);
}

/// A number is written with the digits of its tenth and then its last digit.
pub proof fn numbers_are_written_in_digits(n: nat, d: nat)
    requires
        d < 10,
    ensures
        n > 0 ==> decimal(10 * n + d) == decimal(n).push((48 + d) as u8),
        decimal(d) == seq![(48 + d) as u8],
{
    assert((10 * n + d) / 10 == n);
    assert((10 * n + d) % 10 == d);
}

proof fn spaces_end(bytes: Seq<u8>, i: int, end: int)
    requires
        0 <= i <= end <= bytes.len(),
        forall|j: int| i <= j < end ==> is_space(#[trigger] bytes[j]),
        end < bytes.len() ==> !is_space(bytes[end]),
    ensures
        after_spaces(bytes, i) == end,
    decreases end - i,
{
    if i < end {
        assert(is_space(bytes[i]));
        spaces_end(bytes, i + 1, end);
    }
}

proof fn digits_end(bytes: Seq<u8>, i: int, end: int)
    requires
        0 <= i <= end <= bytes.len(),
        forall|j: int| i <= j < end ==> is_digit(#[trigger] bytes[j]),
        end < bytes.len() ==> !is_digit(bytes[end]),
    ensures
        after_digits(bytes, i) == end,
    decreases end - i,
{
    if i < end {
        assert(is_digit(bytes[i]));
        digits_end(bytes, i + 1, end);
    }
}

/// A length that is given by a reference, such as `/Length 12 0 R`, is replaced by the
/// number of bytes of the stream that follows, if there is room for it: the name of the
/// entry, one space, the digits, and spaces up to where the reference ends.
///
/// The entry begins at `p`. Its reference has digits from `a` to `b` and from `c` to `d`,
/// and its letter stands at `r`.
pub proof fn references_become_numbers(
    bytes: Seq<u8>,
    p: int,
    a: int,
    b: int,
    c: int,
    d: int,
    r: int,
    q: int,
    n: nat,
)
    requires
        0 <= p,
        p + 7 < a < b < c < d < r < q < bytes.len(),
        bytes.subrange(p, p + 7) == seq![47u8, 76, 101, 110, 103, 116, 104],
        forall|j: int| p + 7 <= j < a ==> is_space(#[trigger] bytes[j]),
        forall|j: int| a <= j < b ==> is_digit(#[trigger] bytes[j]),
        forall|j: int| b <= j < c ==> is_space(#[trigger] bytes[j]),
        forall|j: int| c <= j < d ==> is_digit(#[trigger] bytes[j]),
        forall|j: int| d <= j < r ==> is_space(#[trigger] bytes[j]),
        bytes[r] == 82,
        forall|j: int| r < j < q ==> is_space(#[trigger] bytes[j]),
        !is_space(bytes[q]),
        stream_size(bytes, q) == Some(n),
        8 + decimal(n).len() <= q - p,
    ensures
        is_open_length(bytes, p),
        closed_length(bytes, p).len() == q - p,
        closed_length(bytes, p).subrange(0, 8) == seq![47u8, 76, 101, 110, 103, 116, 104, 32],
        closed_length(bytes, p).subrange(8, 8 + decimal(n).len() as int) == decimal(n),
        forall|j: int|
            8 + decimal(n).len() <= j < q - p ==> (#[trigger] closed_length(bytes, p)[j]) == 32,
{
    let word = bytes.subrange(p, p + 7);
    assert(word[0] == bytes[p] && word[1] == bytes[p + 1] && word[2] == bytes[p + 2] && word[3]
        == bytes[p + 3] && word[4] == bytes[p + 4] && word[5] == bytes[p + 5] && word[6] == bytes[p
        + 6]);
    reveal_with_fuel(after_letters, 7);
    assert(after_letters(bytes, p + 1, length_letters(), 0) == Some(p + 7));
    assert(is_space(bytes[p + 7]));
    assert(after_length(bytes, p) == Some(p + 7));
    assert(is_digit(bytes[a]));
    spaces_end(bytes, p + 7, a);
    assert(is_space(bytes[b]));
    digits_end(bytes, a, b);
    assert(is_digit(bytes[c]));
    spaces_end(bytes, b, c);
    assert(is_space(bytes[d]));
    digits_end(bytes, c, d);
    spaces_end(bytes, d, r);
    assert(name_at(bytes, p + 7) == Some(r));
    spaces_end(bytes, r + 1, q);
    assert(bytes.subrange(r, r + 1) =~= seq![82u8]);
    let entry = closed_length(bytes, p);
    assert(entry.subrange(0, 8) =~= seq![47u8, 76, 101, 110, 103, 116, 104, 32]);
    assert(entry.subrange(8, 8 + decimal(n).len() as int) =~= decimal(n));
}

} // verus!
