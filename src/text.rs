//! Byte-level text: decimal numbers as PDF writes them, and UTF-16BE titles.
use vstd::prelude::*;
use vstd::string::StringSliceAdditionalSpecFns;

verus! {

/// The ASCII decimal digits of `n`, without leading zeros.
pub open spec fn dec(n: nat) -> Seq<u8>
    decreases n,
{
    if n < 10 {
        seq![(48 + n) as u8]
    } else {
        dec(n / 10).push((48 + n % 10) as u8)
    }
}

/// The decimal digits of `n`, left-padded with zeros to at least `width`.
pub open spec fn dec_padded(n: nat, width: nat) -> Seq<u8> {
    if dec(n).len() >= width {
        dec(n)
    } else {
        Seq::new((width - dec(n).len()) as nat, |i: int| 48u8) + dec(n)
    }
}

/// The bytes of a string literal.
pub open spec fn lit(s: &str) -> Seq<u8> {
    s.spec_bytes()
}

/// Appends a byte slice.
pub fn push_bytes(out: &mut Vec<u8>, b: &[u8])
    ensures
        final(out)@ == old(out)@ + b@,
{
    let ghost start = out@;
    let mut i: usize = 0;
    while i < b.len()
        invariant
            i <= b@.len(),
            out@ == start + b@.take(i as int),
        decreases b@.len() - i,
    {
        out.push(b[i]);
        i = i + 1;
        proof {
            assert(out@ =~= start + b@.take(i as int));
        }
    }
    proof {
        assert(b@.take(i as int) =~= b@);
    }
}

/// The bytes of a PDF literal string body: `(`, `)` and `\\` are preceded
/// by a backslash, so the string ends at its closing parenthesis.
pub open spec fn escape_literal(b: Seq<u8>) -> Seq<u8>
    decreases b.len(),
{
    if b.len() == 0 {
        seq![]
    } else if b.last() == 0x28u8 || b.last() == 0x29u8 || b.last() == 0x5Cu8 {
        escape_literal(b.drop_last()) + seq![0x5Cu8, b.last()]
    } else {
        escape_literal(b.drop_last()) + seq![b.last()]
    }
}

/// Appends bytes as the body of a PDF literal string.
pub fn push_escaped(out: &mut Vec<u8>, b: &[u8])
    ensures
        final(out)@ == old(out)@ + escape_literal(b@),
{
    let ghost start = out@;
    let mut i: usize = 0;
    while i < b.len()
        invariant
            i <= b@.len(),
            out@ == start + escape_literal(b@.take(i as int)),
        decreases b@.len() - i,
    {
        let c = b[i];
        if c == 0x28u8 || c == 0x29u8 || c == 0x5Cu8 {
            out.push(0x5Cu8);
        }
        out.push(c);
        proof {
            assert(b@.take(i + 1).drop_last() =~= b@.take(i as int));
        }
        i = i + 1;
        proof {
            assert(out@ =~= start + escape_literal(b@.take(i as int)));
        }
    }
    proof {
        assert(b@.take(i as int) =~= b@);
    }
}

/// Appends the bytes of a string.
pub fn push_str(out: &mut Vec<u8>, s: &str)
    ensures
        final(out)@ == old(out)@ + lit(s),
{
    push_bytes(out, s.as_bytes());
}

/// Appends the decimal digits of `n`.
pub fn push_dec(out: &mut Vec<u8>, n: usize)
    ensures
        final(out)@ == old(out)@ + dec(n as nat),
    decreases n,
{
    if n >= 10 {
        push_dec(out, n / 10);
    }
    out.push((48 + n % 10) as u8);
    proof {
        assert(old(out)@ + dec(n as nat) =~= out@);
    }
}

/// Number of decimal digits of `n`.
pub fn dec_len(n: usize) -> (r: usize)
    ensures
        r == dec(n as nat).len(),
        r as int <= n as int + 1,
    decreases n,
{
    if n < 10 {
        1
    } else {
        dec_len(n / 10) + 1
    }
}

/// Appends the decimal digits of `n`, left-padded with zeros to `width`.
pub fn push_dec_padded(out: &mut Vec<u8>, n: usize, width: usize)
    ensures
        final(out)@ == old(out)@ + dec_padded(n as nat, width as nat),
{
    let len = dec_len(n);
    let mut k: usize = len;
    let ghost start = out@;
    while k < width
        invariant
            len <= k,
            k <= width || k == len,
            len == dec(n as nat).len(),
            out@ == start + Seq::new((k - len) as nat, |i: int| 48u8),
        decreases width - k,
    {
        out.push(48u8);
        k = k + 1;
        proof {
            assert(out@ =~= start + Seq::new((k - len) as nat, |i: int| 48u8));
        }
    }
    push_dec(out, n);
    proof {
        if len >= width {
            assert(out@ =~= old(out)@ + dec_padded(n as nat, width as nat));
        } else {
            assert(k == width);
            assert(out@ =~= old(out)@ + dec_padded(n as nat, width as nat));
        }
    }
}

/// The UTF-16BE bytes of one Unicode scalar value: one code unit below
/// U+10000, a surrogate pair above.
pub open spec fn utf16be_scalar(c: u32) -> Seq<u8> {
    if c < 0x10000 {
        seq![(c / 256) as u8, (c % 256) as u8]
    } else {
        let v = (c - 0x10000) as nat;
        let hi = 0xD800 + v / 1024;
        let lo = 0xDC00 + v % 1024;
        seq![(hi / 256) as u8, (hi % 256) as u8, (lo / 256) as u8, (lo % 256) as u8]
    }
}

/// The UTF-16BE encoding of a character sequence.
pub open spec fn utf16be(s: Seq<char>) -> Seq<u8>
    decreases s.len(),
{
    if s.len() == 0 {
        seq![]
    } else {
        utf16be(s.drop_last()) + utf16be_scalar(s.last() as u32)
    }
}

/// A PDF text string: the byte order mark `FE FF` followed by UTF-16BE.
pub open spec fn pdf_text(s: Seq<char>) -> Seq<u8> {
    seq![0xFEu8, 0xFFu8] + utf16be(s)
}

/// The UTF-16 code units of one Unicode scalar value: itself below
/// U+10000, a high and a low surrogate above.
pub open spec fn utf16_scalar_units(c: u32) -> Seq<u16> {
    if c < 0x10000 {
        seq![c as u16]
    } else {
        let v = (c - 0x10000) as nat;
        seq![(0xD800 + v / 1024) as u16, (0xDC00 + v % 1024) as u16]
    }
}

/// The UTF-16 code units of a character sequence.
pub open spec fn utf16_units(s: Seq<char>) -> Seq<u16>
    decreases s.len(),
{
    if s.len() == 0 {
        seq![]
    } else {
        utf16_units(s.drop_last()) + utf16_scalar_units(s.last() as u32)
    }
}

/// Each code unit as two bytes, high byte first.
pub open spec fn be_bytes(u: Seq<u16>) -> Seq<u8>
    decreases u.len(),
{
    if u.len() == 0 {
        seq![]
    } else {
        be_bytes(u.drop_last()) + seq![(u.last() / 256) as u8, (u.last() % 256) as u8]
    }
}

proof fn lemma_be_bytes_concat(a: Seq<u16>, b: Seq<u16>)
    ensures
        be_bytes(a + b) == be_bytes(a) + be_bytes(b),
    decreases b.len(),
{
    if b.len() == 0 {
        assert(a + b =~= a);
        assert(be_bytes(a) + be_bytes(b) =~= be_bytes(a));
    } else {
        lemma_be_bytes_concat(a, b.drop_last());
        assert((a + b).drop_last() =~= a + b.drop_last());
        assert(be_bytes(a + b) =~= be_bytes(a) + be_bytes(b));
    }
}

/// UTF-16BE is the big-endian byte pair of each UTF-16 code unit, in order;
/// characters from U+10000 on take a surrogate pair.
pub proof fn lemma_utf16be_code_units(s: Seq<char>)
    ensures
        utf16be(s) == be_bytes(utf16_units(s)),
        utf16be(s).len() == 2 * utf16_units(s).len(),
    decreases s.len(),
{
    if s.len() > 0 {
        lemma_utf16be_code_units(s.drop_last());
        let c = s.last() as u32;
        vstd::utf8::char_is_scalar(s.last());
        let u = utf16_scalar_units(c);
        lemma_be_bytes_concat(utf16_units(s.drop_last()), u);
        reveal_with_fuel(be_bytes, 3);
        if c < 0x10000 {
            assert(u.drop_last() =~= Seq::<u16>::empty());
        } else {
            assert(u.drop_last() =~= seq![u[0]]);
            assert(seq![u[0]].drop_last() =~= Seq::<u16>::empty());
        }
        assert(be_bytes(u) =~= utf16be_scalar(c));
    }
}

/// Encodes a title as a PDF text string (UTF-16BE with byte order mark):
/// `FE FF`, then each UTF-16 code unit of the title, high byte first.
pub fn encode_unicode_string(s: &str) -> (r: Vec<u8>)
    ensures
        r@ == pdf_text(s@),
        r@ == seq![0xFEu8, 0xFFu8] + be_bytes(utf16_units(s@)),
{
    let mut encoded: Vec<u8> = Vec::new();
    encoded.push(0xFEu8);
    encoded.push(0xFFu8);
    proof {
        assert(s@.take(s@.len() as int) =~= s@);
        assert(s@.take(0) =~= Seq::<char>::empty());
        assert(encoded@ =~= seq![0xFEu8, 0xFFu8] + utf16be(s@.take(0)));
    }
    for c in it: s.chars()
        invariant
            it.seq() == s@,
            encoded@ == seq![0xFEu8, 0xFFu8] + utf16be(s@.take(it.index() as int)),
    {
        let ghost prefix = s@.take(it.index() as int);
        let u: u32 = c as u32;
        proof {
            vstd::utf8::char_is_scalar(c);
        }
        if u < 0x10000 {
            encoded.push((u / 256) as u8);
            encoded.push((u % 256) as u8);
        } else {
            let v: u32 = u - 0x10000;
            let hi: u32 = 0xD800 + v / 1024;
            let lo: u32 = 0xDC00 + v % 1024;
            encoded.push((hi / 256) as u8);
            encoded.push((hi % 256) as u8);
            encoded.push((lo / 256) as u8);
            encoded.push((lo % 256) as u8);
        }
        proof {
            let next = s@.take(it.index() + 1);
            assert(next.last() == c);
            assert(next.drop_last() =~= prefix);
            assert(encoded@ =~= seq![0xFEu8, 0xFFu8] + utf16be(next));
        }
    }
    proof {
        lemma_utf16be_code_units(s@);
    }
    encoded
}

} // verus!
