//! Unicode escapes. Before a Java source is split into tokens, each
//! `\uXXXX` in it stands for one character. This module says which
//! characters a source holds after that step, and where each of them stands
//! in the source as it was written.

use vstd::prelude::*;
use crate::chars::{digit_of, is_scalar_value, to_digit};
use crate::filemap::Span;
use crate::text::{
    byte_len, byte_offset, char_len, lemma_byte_offset_monotone, lemma_byte_offset_step, utf8_len,
};

verus! {

/// What is wrong with a unicode escape.
#[derive(Debug, Clone, Copy, PartialEq, Eq, Structural)]
pub enum EscapeFault {
    /// Fewer than four hexadecimal digits follow the `u`.
    TooShort,
    /// The four digits give a surrogate, which is no character.
    NotScalar,
}

/// A unicode escape that was rejected.
pub struct Fault {
    pub kind: EscapeFault,
    /// Index of the backslash in the source.
    pub lo: int,
    /// Number of characters of the rejected escape.
    pub len: int,
}

/// The outcome of looking for the next character of a source.
pub struct Fetch {
    /// The character found; `None` at the end of the source.
    pub ch: Option<char>,
    /// Index in the source at which the text of that character starts.
    pub start: int,
    /// Index in the source just behind the text of that character.
    pub next: int,
    /// The escape that was rejected on the way, if there was one.
    pub fault: Option<Fault>,
}

/// The substitute character, which is dropped where it ends a source.
pub open spec fn sub_char() -> char {
    '\u{1a}'
}

/// Number of `u` that follow each other from index `j` on.
pub open spec fn count_u(raw: Seq<char>, j: int) -> int
    decreases raw.len() - j,
{
    if 0 <= j < raw.len() && raw[j] == 'u' {
        1 + count_u(raw, j + 1)
    } else {
        0
    }
}

/// Number of hexadecimal digits that follow each other from index `j` on,
/// counted up to `max`.
pub open spec fn hex_run(raw: Seq<char>, j: int, max: int) -> int
    decreases max,
{
    if max > 0 && 0 <= j < raw.len() && digit_of(raw[j], 16) is Some {
        1 + hex_run(raw, j + 1, max - 1)
    } else {
        0
    }
}

/// The number that the `n` hexadecimal digits from index `j` on denote.
pub open spec fn hex_value(raw: Seq<char>, j: int, n: int) -> int
    decreases n,
{
    if n <= 0 || !(0 <= j + n - 1 < raw.len()) {
        0
    } else {
        hex_value(raw, j, n - 1) * 16 + match digit_of(raw[j + n - 1], 16) {
            Some(d) => d as int,
            None => 0,
        }
    }
}

/// Drops a substitute character that ends the source.
pub open spec fn drop_final_sub(raw: Seq<char>, f: Fetch) -> Fetch {
    if f.ch == Some(sub_char()) && f.next >= raw.len() {
        Fetch { ch: None, ..f }
    } else {
        f
    }
}

/// The plain character at index `i`, after an escape was rejected or
/// without one.
pub open spec fn fetch_plain(raw: Seq<char>, i: int, fault: Option<Fault>) -> Fetch {
    if 0 <= i < raw.len() {
        drop_final_sub(raw, Fetch { ch: Some(raw[i]), start: i, next: i + 1, fault })
    } else {
        Fetch { ch: None, start: i, next: i, fault }
    }
}

/// Whether a unicode escape starts at index `i`: a backslash that follows no
/// backslash, and a `u` behind it.
pub open spec fn escape_starts(raw: Seq<char>, i: int, prev: Option<char>) -> bool {
    &&& 0 <= i
    &&& i + 1 < raw.len()
    &&& raw[i] == '\\'
    &&& prev != Some('\\')
    &&& raw[i + 1] == 'u'
}

/// The next character of the source from index `i` on, where `prev` is the
/// character before it.
///
/// An escape with four digits that denote a character gives that character.
/// One with fewer digits, or with digits that denote none, is rejected and
/// the character behind it is taken as it stands.
pub open spec fn fetch(raw: Seq<char>, i: int, prev: Option<char>) -> Fetch {
    if escape_starts(raw, i, prev) {
        let digits = i + 1 + count_u(raw, i + 1);
        let n = hex_run(raw, digits, 4);
        let value = hex_value(raw, digits, 4);
        if n < 4 {
            fetch_plain(
                raw,
                digits + n,
                Some(Fault { kind: EscapeFault::TooShort, lo: i, len: digits + n - i }),
            )
        } else if is_scalar_value(value as u32) {
            drop_final_sub(
                raw,
                Fetch { ch: Some(value as u32 as char), start: i, next: digits + 4, fault: None },
            )
        } else {
            fetch_plain(
                raw,
                digits + 4,
                Some(Fault { kind: EscapeFault::NotScalar, lo: i, len: digits + 4 - i }),
            )
        }
    } else {
        fetch_plain(raw, i, None)
    }
}

/// The characters of the source from index `i` on, each with its place.
pub open spec fn decode_from(raw: Seq<char>, i: int, prev: Option<char>) -> Seq<Fetch>
    decreases raw.len() - i,
{
    let f = fetch(raw, i, prev);
    if f.ch is None || !(i < f.next && f.next <= raw.len()) {
        Seq::empty()
    } else {
        seq![f] + decode_from(raw, f.next, f.ch)
    }
}

/// The outcome of the search that finds the end of the source, started at
/// index `i`.
pub open spec fn tail_from(raw: Seq<char>, i: int, prev: Option<char>) -> Fetch
    decreases raw.len() - i,
{
    let f = fetch(raw, i, prev);
    if f.ch is None || !(i < f.next && f.next <= raw.len()) {
        f
    } else {
        tail_from(raw, f.next, f.ch)
    }
}

/// The characters of a source after its unicode escapes were resolved.
pub open spec fn units(raw: Seq<char>) -> Seq<Fetch> {
    decode_from(raw, 0, None)
}

/// The outcome of the search that finds the end of the source.
pub open spec fn tail(raw: Seq<char>) -> Fetch {
    tail_from(raw, 0, None)
}

/// The text of a source after its unicode escapes were resolved.
pub open spec fn decoded_text(raw: Seq<char>) -> Seq<char> {
    units(raw).map_values(|f: Fetch| f.ch.unwrap())
}

/// Where a fetch ends, and what it never does.
pub proof fn lemma_fetch_bounds(raw: Seq<char>, i: int, prev: Option<char>)
    requires
        0 <= i <= raw.len(),
    ensures
        i <= fetch(raw, i, prev).start <= fetch(raw, i, prev).next <= raw.len(),
        fetch(raw, i, prev).ch is Some ==> fetch(raw, i, prev).start < fetch(raw, i, prev).next,
        fetch(raw, i, prev).ch is None ==> fetch(raw, i, prev).next == raw.len(),
        fetch(raw, i, prev).fault matches Some(ft) ==> ft.lo == i && 2 <= ft.len && i + ft.len
            <= fetch(raw, i, prev).start,
{
    if escape_starts(raw, i, prev) {
        lemma_count_u_bounds(raw, i + 1);
        let digits = i + 1 + count_u(raw, i + 1);
        lemma_hex_run_bounds(raw, digits, 4);
    }
}

/// A run of `u` ends inside the source.
pub proof fn lemma_count_u_bounds(raw: Seq<char>, j: int)
    requires
        0 <= j <= raw.len(),
    ensures
        0 <= count_u(raw, j) <= raw.len() - j,
        j < raw.len() && raw[j] == 'u' ==> count_u(raw, j) >= 1,
    decreases raw.len() - j,
{
    if j < raw.len() && raw[j] == 'u' {
        lemma_count_u_bounds(raw, j + 1);
    }
}

/// A run of digits ends inside the source and is no longer than asked.
pub proof fn lemma_hex_run_bounds(raw: Seq<char>, j: int, max: int)
    requires
        0 <= j <= raw.len(),
        0 <= max,
    ensures
        0 <= hex_run(raw, j, max) <= max,
        hex_run(raw, j, max) <= raw.len() - j,
    decreases max,
{
    if max > 0 && j < raw.len() && digit_of(raw[j], 16) is Some {
        lemma_hex_run_bounds(raw, j + 1, max - 1);
    }
}

/// Each character found from index `i` on stands in the source, behind the
/// one before it, and the search for a further one ends at the end of the
/// source.
pub proof fn lemma_decode_from(raw: Seq<char>, i: int, prev: Option<char>)
    requires
        0 <= i <= raw.len(),
    ensures
        forall|k: int|
            0 <= k < decode_from(raw, i, prev).len() ==> {
                let f = #[trigger] decode_from(raw, i, prev)[k];
                f.ch is Some && i <= f.start < f.next <= raw.len()
            },
        forall|k: int|
            0 <= k && k + 1 < decode_from(raw, i, prev).len() ==> (#[trigger] decode_from(
                raw,
                i,
                prev,
            )[k]).next <= decode_from(raw, i, prev)[k + 1].start,
        tail_from(raw, i, prev).ch is None,
        i <= tail_from(raw, i, prev).start <= tail_from(raw, i, prev).next == raw.len(),
        decode_from(raw, i, prev).len() > 0 ==> decode_from(raw, i, prev).last().next
            <= tail_from(raw, i, prev).start,
    decreases raw.len() - i,
{
    lemma_fetch_bounds(raw, i, prev);
    let f = fetch(raw, i, prev);
    if f.ch is Some {
        lemma_decode_from(raw, f.next, f.ch);
        let d = decode_from(raw, i, prev);
        assert forall|k: int| 0 <= k < d.len() implies {
            let g = #[trigger] d[k];
            g.ch is Some && i <= g.start < g.next <= raw.len()
        } by {}
        assert forall|k: int| 0 <= k && k + 1 < d.len() implies (#[trigger] d[k]).next <= d[k
            + 1].start by {}
    }
}

/// The characters of a source stand in it one behind the other, and the
/// search for one more ends at the end of the source.
pub proof fn lemma_units(raw: Seq<char>)
    ensures
        forall|k: int|
            0 <= k < units(raw).len() ==> {
                let f = #[trigger] units(raw)[k];
                f.ch is Some && 0 <= f.start < f.next <= raw.len()
            },
        forall|k: int|
            0 <= k && k + 1 < units(raw).len() ==> (#[trigger] units(raw)[k]).next <= units(
                raw,
            )[k + 1].start,
        tail(raw).ch is None,
        0 <= tail(raw).start <= tail(raw).next == raw.len(),
        units(raw).len() > 0 ==> units(raw).last().next <= tail(raw).start,
{
    lemma_decode_from(raw, 0, None);
}

/// The bytes of a rejected escape: from its backslash up to the byte behind
/// its last character.
pub open spec fn fault_span(raw: Seq<char>, ft: Fault) -> Span {
    Span {
        lo: byte_offset(raw, ft.lo) as usize,
        hi: (byte_offset(raw, ft.lo) + ft.len) as usize,
    }
}

/// What the reader found in the source: a `Fetch` with byte offsets.
pub struct Fetched {
    /// The character found; `None` at the end of the source.
    pub ch: Option<char>,
    /// Byte offset at which the text of that character starts.
    pub start_pos: usize,
    /// Index in the source just behind the text of that character.
    pub next: usize,
    /// Byte offset just behind the text of that character.
    pub next_pos: usize,
    /// The fault of the escape that was rejected on the way, if any.
    pub fault: Option<EscapeFault>,
    /// The bytes of the rejected escape.
    pub fault_span: Span,
}

impl Fetched {
    /// Whether `self` is `f`, with each index of `f` turned into a byte
    /// offset.
    pub open spec fn is(self, raw: Seq<char>, f: Fetch) -> bool {
        &&& self.ch == f.ch
        &&& self.next == f.next
        &&& self.start_pos == byte_offset(raw, f.start)
        &&& self.next_pos == byte_offset(raw, f.next)
        &&& match f.fault {
            Some(ft) => self.fault == Some(ft.kind) && self.fault_span == fault_span(raw, ft),
            None => self.fault is None,
        }
    }
}

/// Characters that a digit stands for take one byte.
proof fn lemma_digit_is_ascii(c: char, radix: u32)
    requires
        digit_of(c, radix) is Some,
    ensures
        char_len(c) == 1,
{
}

/// Reads the character at index `i` as it stands.
fn read_plain(
    chars: &Vec<char>,
    i: usize,
    ipos: usize,
    fault: Option<EscapeFault>,
    fault_span: Span,
) -> (r: Fetched)
    requires
        i <= chars.len(),
        ipos == byte_offset(chars@, i as int),
        byte_len(chars@) <= usize::MAX,
    ensures
        r.ch == fetch_plain(chars@, i as int, None).ch,
        r.next == fetch_plain(chars@, i as int, None).next,
        r.start_pos == byte_offset(chars@, fetch_plain(chars@, i as int, None).start),
        r.next_pos == byte_offset(chars@, fetch_plain(chars@, i as int, None).next),
        r.fault == fault,
        r.fault_span == fault_span,
{
    if i < chars.len() {
        let c = chars[i];
        proof {
            lemma_byte_offset_step(chars@, i as int);
            lemma_byte_offset_monotone(chars@, i + 1, chars@.len() as int);
        }
        let next_pos: usize = ipos + utf8_len(c);
        let ch = if c == '\u{1a}' && i + 1 >= chars.len() {
            None
        } else {
            Some(c)
        };
        Fetched { ch, start_pos: ipos, next: i + 1, next_pos, fault, fault_span }
    } else {
        Fetched { ch: None, start_pos: ipos, next: i, next_pos: ipos, fault, fault_span }
    }
}

/// Reads the next character of the source from index `idx` on, where `prev`
/// is the character before it and `pos` the byte offset of `idx`.
pub fn read_char(chars: &Vec<char>, idx: usize, pos: usize, prev: Option<char>) -> (r: Fetched)
    requires
        idx <= chars.len(),
        pos == byte_offset(chars@, idx as int),
        byte_len(chars@) <= usize::MAX,
    ensures
        r.is(chars@, fetch(chars@, idx as int, prev)),
{
    let ghost raw = chars@;
    let none = Span { lo: 0, hi: 0 };
    let after_backslash = match prev {
        Some(p) => p == '\\',
        None => false,
    };
    if idx < chars.len() && idx + 1 < chars.len() && chars[idx] == '\\' && !after_backslash
        && chars[idx + 1] == 'u' {
        proof {
            lemma_byte_offset_step(raw, idx as int);
            lemma_byte_offset_monotone(raw, idx + 1, raw.len() as int);
        }
        let mut j: usize = idx + 1;
        let mut jpos: usize = pos + 1;
        while j < chars.len() && chars[j] == 'u'
            invariant
                raw == chars@,
                idx + 1 <= j <= raw.len(),
                jpos == byte_offset(raw, j as int),
                jpos == pos + (j - idx),
                byte_len(raw) <= usize::MAX,
                count_u(raw, idx + 1) == (j - idx - 1) + count_u(raw, j as int),
            decreases raw.len() - j,
        {
            proof {
                lemma_byte_offset_step(raw, j as int);
                lemma_byte_offset_monotone(raw, j + 1, raw.len() as int);
            }
            j += 1;
            jpos += 1;
        }
        let mut n: usize = 0;
        let mut value: u32 = 0;
        let mut more = true;
        while more && n < 4 && j + n < chars.len()
            invariant
                raw == chars@,
                j <= raw.len(),
                n <= 4,
                j + n <= raw.len(),
                j + n <= usize::MAX,
                jpos == byte_offset(raw, j as int),
                jpos + n == byte_offset(raw, j + n),
                byte_len(raw) <= usize::MAX,
                more ==> hex_run(raw, j as int, 4) == n + hex_run(raw, j + n, 4 - n),
                !more ==> hex_run(raw, j as int, 4) == n && n < 4,
                value == hex_value(raw, j as int, n as int),
                n == 0 ==> value == 0,
                n == 1 ==> value < 0x10,
                n == 2 ==> value < 0x100,
                n == 3 ==> value < 0x1000,
                n == 4 ==> value < 0x10000,
            decreases 4 - n + if more { 1int } else { 0int },
        {
            match to_digit(chars[j + n], 16) {
                Some(d) => {
                    proof {
                        lemma_digit_is_ascii(raw[j + n], 16);
                        lemma_byte_offset_step(raw, j + n);
                        lemma_byte_offset_monotone(raw, j + n + 1, raw.len() as int);
                    }
                    value = value * 16 + d;
                    n += 1;
                },
                None => {
                    more = false;
                },
            }
        }
        proof {
            lemma_byte_offset_monotone(raw, j + n, raw.len() as int);
        }
        if n < 4 {
            let span = Span { lo: pos, hi: jpos + n };
            read_plain(chars, j + n, jpos + n, Some(EscapeFault::TooShort), span)
        } else {
            match char::from_u32(value) {
                Some(ch) => {
                    let sub = ch == '\u{1a}' && j + 4 >= chars.len();
                    Fetched {
                        ch: if sub {
                            None
                        } else {
                            Some(ch)
                        },
                        start_pos: pos,
                        next: j + 4,
                        next_pos: jpos + 4,
                        fault: None,
                        fault_span: none,
                    }
                },
                None => {
                    let span = Span { lo: pos, hi: jpos + 4 };
                    read_plain(chars, j + 4, jpos + 4, Some(EscapeFault::NotScalar), span)
                },
            }
        }
    } else {
        read_plain(chars, idx, pos, None, none)
    }
}

} // verus!
