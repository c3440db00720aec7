//! How deep the brackets in a text are nested: what the stack that a reader needs
//! depends on.
use vstd::prelude::*;

verus! {

/// What a byte of a text stands in.
#[derive(Clone, Copy, Debug, PartialEq, Eq, Structural)]
pub enum ScanMode {
    /// In nothing that changes its meaning.
    Plain,
    /// In a comment.
    Comment,
    /// Behind a backslash.
    Escaped,
}

/// The brackets and the round brackets that are open, and what comes next stands
/// in, after one more byte. Square, curly and angle brackets count outside of
/// strings and comments, round brackets open and close strings. A comment goes from
/// a percent sign to the end of the line.
pub open spec fn scan_step(state: (nat, nat, ScanMode), b: u8) -> (nat, nat, ScanMode) {
    let (brackets, strings, mode) = state;
    if mode == ScanMode::Comment {
        if b == 10 || b == 13 {
            (brackets, strings, ScanMode::Plain)
        } else {
            state
        }
    } else if strings > 0 {
        if mode == ScanMode::Escaped && (b == 92 || b == 40 || b == 41) {
            (brackets, strings, ScanMode::Plain)
        } else if b == 92 {
            (brackets, strings, ScanMode::Escaped)
        } else if b == 40 {
            (brackets, strings + 1, ScanMode::Plain)
        } else if b == 41 {
            (brackets, (strings - 1) as nat, ScanMode::Plain)
        } else {
            (brackets, strings, ScanMode::Plain)
        }
    } else if b == 37 {
        (brackets, strings, ScanMode::Comment)
    } else if b == 40 {
        (brackets, strings + 1, ScanMode::Plain)
    } else if b == 91 || b == 123 || b == 60 {
        (brackets + 1, strings, ScanMode::Plain)
    } else if (b == 93 || b == 125 || b == 62) && brackets > 0 {
        ((brackets - 1) as nat, strings, ScanMode::Plain)
    } else {
        (brackets, strings, ScanMode::Plain)
    }
}

/// What is open after the first `n` bytes.
pub open spec fn scanned(bytes: Seq<u8>, n: int) -> (nat, nat, ScanMode)
    decreases n,
{
    if n <= 0 {
        (0, 0, ScanMode::Plain)
    } else {
        scan_step(scanned(bytes, n - 1), bytes[n - 1])
    }
}

/// How many brackets are open after the first `n` bytes.
pub open spec fn open_brackets(bytes: Seq<u8>, n: int) -> nat {
    scanned(bytes, n).0 + scanned(bytes, n).1
}

/// Nowhere in the text more than `limit` brackets are open.
pub open spec fn nested_within(bytes: Seq<u8>, limit: nat) -> bool {
    forall|n: int| 0 <= n <= bytes.len() ==> #[trigger] open_brackets(bytes, n) <= limit
}

/// Whether nowhere in the text more than `limit` brackets are open.
pub fn check_nesting(bytes: &[u8], limit: usize) -> (r: bool)
    ensures
        r == nested_within(bytes@, limit as nat),
{
    let mut brackets: usize = 0;
    let mut strings: usize = 0;
    let mut mode = ScanMode::Plain;
    let mut i: usize = 0;
    while i < bytes.len()
        invariant
            i <= bytes@.len(),
            scanned(bytes@, i as int) == (brackets as nat, strings as nat, mode),
            brackets + strings <= limit,
            forall|n: int| 0 <= n <= i ==> #[trigger] open_brackets(bytes@, n) <= limit,
        decreases bytes@.len() - i,
    {
        let b = bytes[i];
        let full = brackets + strings == limit;
        let ghost after = scan_step((brackets as nat, strings as nat, mode), b);
        assert(scanned(bytes@, i + 1) == after);
        if mode == ScanMode::Comment {
            if b == 10 || b == 13 {
                mode = ScanMode::Plain;
            }
        } else if strings > 0 {
            if mode == ScanMode::Escaped && (b == 92 || b == 40 || b == 41) {
                mode = ScanMode::Plain;
            } else if b == 92 {
                mode = ScanMode::Escaped;
            } else {
                mode = ScanMode::Plain;
                if b == 40 {
                    if full {
                        assert(open_brackets(bytes@, i + 1) > limit);
                        return false;
                    }
                    strings = strings + 1;
                } else if b == 41 {
                    strings = strings - 1;
                }
            }
        } else if b == 37 {
            mode = ScanMode::Comment;
        } else {
            mode = ScanMode::Plain;
            if b == 40 || b == 91 || b == 123 || b == 60 {
                if full {
                    assert(open_brackets(bytes@, i + 1) > limit);
                    return false;
                }
                if b == 40 {
                    strings = strings + 1;
                } else {
                    brackets = brackets + 1;
                }
            } else if (b == 93 || b == 125 || b == 62) && brackets > 0 {
                brackets = brackets - 1;
            }
        }
        i = i + 1;
    }
    true
}

proof fn scanned_front(a: Seq<u8>, b: Seq<u8>, n: int)
    requires
        0 <= n <= a.len(),
    ensures
        scanned(a + b, n) == scanned(a, n),
    decreases n,
{
    if n > 0 {
        scanned_front(a, b, n - 1);
        assert((a + b)[n - 1] == a[n - 1]);
    }
}

/// Outside of texts and comments a bracket counts until it is closed: what stands between
/// two brackets, without any of its own, leaves the count as it was.
pub proof fn brackets_count_until_closed(bytes: Seq<u8>, open: u8, within: Seq<u8>, close: u8)
    requires
        scanned(bytes, bytes.len() as int).1 == 0,
        scanned(bytes, bytes.len() as int).2 != ScanMode::Comment,
        open == 91 || open == 123 || open == 60,
        close == 93 || close == 125 || close == 62,
        forall|i: int|
            0 <= i < within.len() ==> (#[trigger] within[i]) != 37 && within[i] != 40 && within[i]
                != 91 && within[i] != 93 && within[i] != 123 && within[i] != 125 && within[i] != 60
                && within[i] != 62,
    ensures
        ({
            let opened = bytes.push(open);
            open_brackets(opened, opened.len() as int) == open_brackets(bytes, bytes.len() as int)
                + 1
        }),
        ({
            let all = bytes.push(open) + within + seq![close];
            open_brackets(all, all.len() as int) == open_brackets(bytes, bytes.len() as int)
        }),
{
    let opened = bytes.push(open);
    assert(opened =~= bytes + seq![open]);
    scanned_front(bytes, seq![open], bytes.len() as int);
    assert(opened[bytes.len() as int] == open);
    plain_bytes_keep_the_count(opened, within);
    let filled = opened + within;
    let all = filled + seq![close];
    scanned_front(filled, seq![close], filled.len() as int);
    assert(all[filled.len() as int] == close);
}

proof fn plain_bytes_keep_the_count(bytes: Seq<u8>, within: Seq<u8>)
    requires
        scanned(bytes, bytes.len() as int).1 == 0,
        scanned(bytes, bytes.len() as int).2 == ScanMode::Plain,
        forall|i: int|
            0 <= i < within.len() ==> (#[trigger] within[i]) != 37 && within[i] != 40 && within[i]
                != 91 && within[i] != 93 && within[i] != 123 && within[i] != 125 && within[i] != 60
                && within[i] != 62,
    ensures
        scanned(bytes + within, (bytes + within).len() as int) == scanned(
            bytes,
            bytes.len() as int,
        ),
    decreases within.len(),
{
    if within.len() == 0 {
        assert(bytes + within =~= bytes);
    } else {
        let front = within.drop_last();
        assert forall|i: int| 0 <= i < front.len() implies (#[trigger] front[i]) != 37 && front[i]
            != 40 && front[i] != 91 && front[i] != 93 && front[i] != 123 && front[i] != 125
            && front[i] != 60 && front[i] != 62 by {
            assert(front[i] == within[i]);
        }
        plain_bytes_keep_the_count(bytes, front);
        let last = within[within.len() - 1];
        let all = bytes + within;
        assert(all =~= (bytes + front) + seq![last]);
        scanned_front(bytes + front, seq![last], (bytes + front).len() as int);
        assert(all[all.len() - 1] == last);
    }
}

} // verus!
