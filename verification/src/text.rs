//! Characters, their UTF-8 lengths, and byte offsets into a text.

use vstd::prelude::*;
use vstd::string::*;
use vstd::utf8::*;

verus! {

/// Number of bytes that the UTF-8 encoding of `c` takes.
pub open spec fn char_len(c: char) -> nat {
    if (c as u32) < 0x80 {
        1
    } else if (c as u32) < 0x800 {
        2
    } else if (c as u32) < 0x10000 {
        3
    } else {
        4
    }
}

/// Number of bytes that the UTF-8 encoding of `s` takes.
pub open spec fn byte_len(s: Seq<char>) -> nat
    decreases s.len(),
{
    if s.len() == 0 {
        0
    } else {
        byte_len(s.drop_last()) + char_len(s.last())
    }
}

/// Byte offset at which the character with index `i` starts in the UTF-8
/// encoding of `s`; for `i == s.len()`, the length of the whole encoding.
pub open spec fn byte_offset(s: Seq<char>, i: int) -> nat
    recommends
        0 <= i <= s.len(),
{
    byte_len(s.take(i))
}

/// The byte length of a concatenation is the sum of the byte lengths.
pub proof fn lemma_byte_len_concat(a: Seq<char>, b: Seq<char>)
    ensures
        byte_len(a + b) == byte_len(a) + byte_len(b),
    decreases b.len(),
{
    if b.len() == 0 {
    } else {
        assert((a + b).drop_last() =~= a + b.drop_last());
        lemma_byte_len_concat(a, b.drop_last());
    }
}

/// Moving one character further adds that character's length to the offset.
pub proof fn lemma_byte_offset_step(s: Seq<char>, i: int)
    requires
        0 <= i < s.len(),
    ensures
        byte_offset(s, i + 1) == byte_offset(s, i) + char_len(s[i]),
        byte_offset(s, i + 1) > byte_offset(s, i),
{
    assert(s.take(i + 1).drop_last() =~= s.take(i));
}

/// Offsets grow with the index, by at least one byte for each character.
pub proof fn lemma_byte_offset_grows(s: Seq<char>, i: int, j: int)
    requires
        0 <= i <= j <= s.len(),
    ensures
        byte_offset(s, i) + (j - i) <= byte_offset(s, j),
    decreases j - i,
{
    if i < j {
        lemma_byte_offset_grows(s, i, j - 1);
        lemma_byte_offset_step(s, j - 1);
    }
}

/// Offsets grow with the index, and none passes the length of the text.
pub proof fn lemma_byte_offset_monotone(s: Seq<char>, i: int, j: int)
    requires
        0 <= i <= j <= s.len(),
    ensures
        byte_offset(s, i) <= byte_offset(s, j) <= byte_len(s),
        i < j ==> byte_offset(s, i) < byte_offset(s, j),
        byte_offset(s, i) + (j - i) <= byte_offset(s, j),
{
    assert(s.take(s.len() as int) =~= s);
    lemma_byte_offset_grows(s, i, j);
    lemma_byte_offset_grows(s, j, s.len() as int);
}

/// `byte_len` measures the UTF-8 encoding.
pub proof fn lemma_byte_len_is_encoding_len(s: Seq<char>)
    ensures
        byte_len(s) == encode_utf8(s).len(),
    decreases s.len(),
{
    if s.len() > 0 {
        let head = seq![s[0]];
        assert(head + s.drop_first() =~= s);
        lemma_byte_len_concat(head, s.drop_first());
        lemma_byte_len_is_encoding_len(s.drop_first());
        assert(byte_len(head) == char_len(s[0])) by {
            assert(byte_len(head.drop_last()) == 0);
        }
        char_is_scalar(s[0]);
    }
}

/// The byte length of a string fits in `usize`.
pub fn byte_length(s: &str) -> (n: usize)
    ensures
        n == byte_len(s@),
{
    let bytes = s.as_bytes();
    proof {
        lemma_byte_len_is_encoding_len(s@);
    }
    bytes.len()
}

/// UTF-8 length of one character.
pub fn utf8_len(c: char) -> (n: usize)
    ensures
        n == char_len(c),
        1 <= n <= 4,
{
    let x: u32 = c as u32;
    if x < 0x80 {
        1
    } else if x < 0x800 {
        2
    } else if x < 0x10000 {
        3
    } else {
        4
    }
}

/// The characters of a string, in order.
pub fn chars_of(s: &str) -> (v: Vec<char>)
    ensures
        v@ == s@,
{
    let mut v: Vec<char> = Vec::new();
    for c in it: s.chars()
        invariant
            v@ == it.seq().take(it.index()),
            it.seq() == s@,
    {
        v.push(c);
    }
    v
}

/// `String::push` appends one character.
pub assume_specification[ String::push ](s: &mut String, c: char)
    ensures
        final(s)@ == old(s)@.push(c),
;

/// The string made of the characters `v[from..to]`.
pub fn string_of(v: &Vec<char>, from: usize, to: usize) -> (s: String)
    requires
        from <= to <= v.len(),
    ensures
        s@ == v@.subrange(from as int, to as int),
{
    let mut s = String::new();
    let mut i: usize = from;
    while i < to
        invariant
            from <= i <= to <= v.len(),
            s@ == v@.subrange(from as int, i as int),
        decreases to - i,
    {
        s.push(v[i]);
        i += 1;
    }
    s
}

/// Whether `v` holds the characters of `lit`.
pub fn text_is(v: &Vec<char>, lit: &str) -> (r: bool)
    ensures
        r == (v@ == lit@),
{
    let mut same = true;
    let mut i: usize = 0;
    let _n: usize = byte_length(lit);
    proof {
        lemma_byte_offset_grows(lit@, 0, lit@.len() as int);
        assert(lit@.take(lit@.len() as int) =~= lit@);
        assert(v@.take(0) =~= lit@.take(0));
    }
    for c in it: lit.chars()
        invariant
            it.seq() == lit@,
            lit@.len() <= usize::MAX,
            i == it.index(),
            same == (i <= v.len() && v@.take(i as int) == lit@.take(i as int)),
    {
        if same && i < v.len() && v[i] == c {
            proof {
                assert(v@.take(i + 1) =~= v@.take(i as int).push(v@[i as int]));
                assert(lit@.take(i + 1) =~= lit@.take(i as int).push(lit@[i as int]));
            }
        } else {
            proof {
                if i + 1 <= v.len() && v@.take(i + 1) == lit@.take(i + 1) {
                    assert(v@.take(i as int) =~= v@.take(i + 1).take(i as int));
                    assert(lit@.take(i as int) =~= lit@.take(i + 1).take(i as int));
                    assert(v@.take(i + 1)[i as int] == v@[i as int]);
                }
            }
            same = false;
        }
        i += 1;
    }
    proof {
        if i <= v.len() {
            if i == v.len() {
                assert(v@.take(i as int) =~= v@);
            }
        }
    }
    same && i == v.len()
}

/// Whether two strings hold the same characters.
pub fn same_text(a: &str, b: &str) -> (r: bool)
    ensures
        r == (a@ == b@),
{
    let x = chars_of(a);
    let y = chars_of(b);
    if x.len() != y.len() {
        return false;
    }
    let mut i: usize = 0;
    while i < x.len()
        invariant
            x@ == a@,
            y@ == b@,
            x.len() == y.len(),
            i <= x.len(),
            x@.take(i as int) == y@.take(i as int),
        decreases x.len() - i,
    {
        if x[i] != y[i] {
            return false;
        }
        i += 1;
    }
    assert(x@.take(i as int) =~= x@);
    assert(y@.take(i as int) =~= y@);
    true
}

} // verus!
