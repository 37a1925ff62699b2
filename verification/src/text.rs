use vstd::prelude::*;

verus! {

/// Whether character `a` comes before character `b` (by code point, which is also
/// the order of their UTF-8 encodings).
pub open spec fn char_before(a: char, b: char) -> bool {
    (a as int) < (b as int)
}

/// Lexicographic comparison of two character sequences: -1 when `a` sorts
/// first, 0 when they are equal, 1 when `b` sorts first.
pub open spec fn lex_compare(a: Seq<char>, b: Seq<char>) -> int
    decreases a.len(),
{
    if a.len() == 0 {
        if b.len() == 0 {
            0
        } else {
            -1
        }
    } else if b.len() == 0 {
        1
    } else if char_before(a[0], b[0]) {
        -1
    } else if char_before(b[0], a[0]) {
        1
    } else {
        lex_compare(a.drop_first(), b.drop_first())
    }
}

/// Swapping the arguments negates the comparison, and the comparison is 0
/// exactly when the sequences are equal.
pub proof fn lemma_lex_compare_antisymmetric(a: Seq<char>, b: Seq<char>)
    ensures
        lex_compare(a, b) == -lex_compare(b, a),
        (lex_compare(a, b) == 0) == (a == b),
        -1 <= lex_compare(a, b) <= 1,
    decreases a.len(),
{
    if a.len() > 0 && b.len() > 0 {
        lemma_lex_compare_antisymmetric(a.drop_first(), b.drop_first());
        if !char_before(a[0], b[0]) && !char_before(b[0], a[0]) {
            assert((a[0] as int) == (b[0] as int));
            assert(a[0] == b[0]);
            if a.drop_first() == b.drop_first() {
                assert(a =~= seq![a[0]] + a.drop_first());
                assert(b =~= seq![b[0]] + b.drop_first());
            }
            if a == b {
                assert(a.drop_first() =~= b.drop_first());
            }
        }
    } else if a.len() == 0 && b.len() > 0 {
        assert(a != b);
    } else if a.len() > 0 && b.len() == 0 {
        assert(a != b);
    } else {
        assert(a =~= b);
    }
}

/// Exec order test on characters.
pub fn char_is_before(a: char, b: char) -> (r: bool)
    ensures
        r == char_before(a, b),
{
    (a as u32) < (b as u32)
}

/// Compares two strings character by character; see `lex_compare`.
pub fn compare_text(a: &str, b: &str) -> (r: i8)
    ensures
        r as int == lex_compare(a@, b@),
{
    let a_len = a.unicode_len();
    let b_len = b.unicode_len();
    let mut i: usize = 0;
    assert(a@.skip(0) =~= a@);
    assert(b@.skip(0) =~= b@);
    while i < a_len && i < b_len
        invariant
            a_len == a@.len(),
            b_len == b@.len(),
            i <= a_len,
            i <= b_len,
            lex_compare(a@, b@) == lex_compare(a@.skip(i as int), b@.skip(i as int)),
        decreases a_len - i,
    {
        let ca = a.get_char(i);
        let cb = b.get_char(i);
        assert(a@.skip(i as int)[0] == ca);
        assert(b@.skip(i as int)[0] == cb);
        if char_is_before(ca, cb) {
            return -1;
        }
        if char_is_before(cb, ca) {
            return 1;
        }
        assert(a@.skip(i as int).drop_first() =~= a@.skip(i + 1));
        assert(b@.skip(i as int).drop_first() =~= b@.skip(i + 1));
        i = i + 1;
    }
    if i == a_len {
        if i == b_len {
            0
        } else {
            -1
        }
    } else {
        1
    }
}

/// The number of bytes that the UTF-8 encoding of `c` takes.
pub open spec fn utf8_width(c: char) -> nat {
    if (c as int) < 0x80 {
        1
    } else if (c as int) < 0x800 {
        2
    } else if (c as int) < 0x10000 {
        3
    } else {
        4
    }
}

/// The number of bytes that the UTF-8 encoding of `cs` takes.
pub open spec fn utf8_len(cs: Seq<char>) -> nat
    decreases cs.len(),
{
    if cs.len() == 0 {
        0
    } else {
        utf8_len(cs.drop_last()) + utf8_width(cs.last())
    }
}

/// `s` cut at each `'\n'`: the pieces between the line feeds, in order, the last
/// one being what follows the last line feed (empty when `s` ends with one).
pub open spec fn split_lines(s: Seq<char>) -> Seq<Seq<char>>
    decreases s.len(),
{
    if s.len() == 0 {
        seq![Seq::<char>::empty()]
    } else {
        let pieces = split_lines(s.drop_last());
        if s.last() == '\n' {
            pieces.push(Seq::<char>::empty())
        } else {
            pieces.update(pieces.len() - 1, pieces.last().push(s.last()))
        }
    }
}

/// A line that ended with `"\r\n"` loses its `'\r'`.
pub open spec fn strip_cr(line: Seq<char>) -> Seq<char> {
    if line.len() > 0 && line.last() == '\r' {
        line.drop_last()
    } else {
        line
    }
}

pub open spec fn max_nat(a: nat, b: nat) -> nat {
    if a >= b {
        a
    } else {
        b
    }
}

/// The widest, in bytes, of pieces that each ended with a line feed, a trailing
/// `'\r'` not counted.
pub open spec fn widest_ended_line(pieces: Seq<Seq<char>>) -> nat
    decreases pieces.len(),
{
    if pieces.len() == 0 {
        0
    } else {
        max_nat(widest_ended_line(pieces.drop_last()), utf8_len(strip_cr(pieces.last())))
    }
}

/// The byte length of the longest line of `s`, lines being separated by `"\n"` or
/// `"\r\n"`; 0 for an empty `s`.
pub open spec fn longest_line_bytes(s: Seq<char>) -> nat {
    let pieces = split_lines(s);
    max_nat(widest_ended_line(pieces.drop_last()), utf8_len(pieces.last()))
}

/// The lines joined, with `sep` between each two.
pub open spec fn join_lines(lines: Seq<Seq<char>>, sep: Seq<char>) -> Seq<char>
    decreases lines.len(),
{
    if lines.len() == 0 {
        Seq::empty()
    } else if lines.len() == 1 {
        lines[0]
    } else {
        join_lines(lines.drop_last(), sep) + sep + lines.last()
    }
}

/// Exec UTF-8 width of a character.
pub fn char_utf8_width(c: char) -> (w: u8)
    ensures
        w as nat == utf8_width(c),
{
    let v = c as u32;
    if v < 0x80 {
        1
    } else if v < 0x800 {
        2
    } else if v < 0x10000 {
        3
    } else {
        4
    }
}

/// The byte length of the longest line of `s`; see `longest_line_bytes`.
pub fn longest_line_width(s: &str) -> (w: u128)
    ensures
        w as nat == longest_line_bytes(s@),
{
    let n = s.unicode_len();
    let mut best: u128 = 0;
    let mut cur: u128 = 0;
    let mut ends_cr = false;
    let mut i: usize = 0;
    assert(s@.take(0) =~= Seq::<char>::empty());
    while i < n
        invariant
            n == s@.len(),
            i <= n,
            split_lines(s@.take(i as int)).len() >= 1,
            best as nat == widest_ended_line(split_lines(s@.take(i as int)).drop_last()),
            cur as nat == utf8_len(split_lines(s@.take(i as int)).last()),
            ends_cr == (split_lines(s@.take(i as int)).last().len() > 0 && split_lines(
                s@.take(i as int),
            ).last().last() == '\r'),
            best <= 4 * i,
            cur <= 4 * i,
        decreases n - i,
    {
        let c = s.get_char(i);
        let ghost prev = s@.take(i as int);
        let ghost next = s@.take(i + 1);
        let ghost pieces = split_lines(prev);
        assert(next.drop_last() =~= prev);
        assert(next.last() == c);
        if c == '\n' {
            let line = if ends_cr {
                cur - 1
            } else {
                cur
            };
            proof {
                let last = pieces.last();
                if ends_cr {
                    assert(utf8_width(last.last()) == 1);
                }
                assert(split_lines(next) == pieces.push(Seq::<char>::empty()));
                assert(split_lines(next).drop_last() =~= pieces);
                assert(pieces =~= pieces.drop_last().push(last));
            }
            if line > best {
                best = line;
            }
            cur = 0;
            ends_cr = false;
            proof {
                assert(split_lines(next).last() =~= Seq::<char>::empty());
            }
        } else {
            let w = char_utf8_width(c);
            cur = cur + w as u128;
            ends_cr = c == '\r';
            proof {
                let last = pieces.last();
                let grown = pieces.update(pieces.len() - 1, last.push(c));
                assert(split_lines(next) == grown);
                assert(grown.drop_last() =~= pieces.drop_last());
                assert(grown.last() == last.push(c));
                assert(last.push(c).drop_last() =~= last);
            }
        }
        i = i + 1;
    }
    assert(s@.take(n as int) =~= s@);
    if cur > best {
        cur
    } else {
        best
    }
}

} // verus!
