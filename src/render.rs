//! The bytes written for one matched line.

use vstd::prelude::*;
use vstd::string::StringSliceAdditionalSpecFns;

verus! {

/// The separator between path, line number and line text.
pub const COLON: u8 = 58;

/// The ASCII digit zero.
pub const DIGIT_ZERO: u8 = 48;

/// The decimal digits of `n`, most significant first, without leading zeros.
pub open spec fn decimal(n: nat) -> Seq<u8>
    decreases n,
{
    if n < 10 {
        seq![(DIGIT_ZERO + n) as u8]
    } else {
        decimal(n / 10).push((DIGIT_ZERO + n % 10) as u8)
    }
}

/// `<path>:<line_number>:`
pub open spec fn header(path: Seq<u8>, line_number: nat) -> Seq<u8> {
    path + seq![COLON] + decimal(line_number) + seq![COLON]
}

/// `<path>:<line_number>:<line>`, the line keeping its own terminator.
pub open spec fn plain_rendering(path: Seq<u8>, line_number: nat, line: Seq<u8>) -> Seq<u8> {
    header(path, line_number) + line
}

fn push_decimal(out: &mut Vec<u8>, n: usize)
    ensures
        final(out)@ == old(out)@ + decimal(n as nat),
    decreases n,
{
    if n >= 10 {
        push_decimal(out, n / 10);
    }
    out.push(DIGIT_ZERO + (n % 10) as u8);
    proof {
        if n < 10 {
            assert(final(out)@ =~= old(out)@ + decimal(n as nat));
        } else {
            assert(final(out)@ =~= old(out)@ + decimal(n as nat));
        }
    }
}

fn append_bytes(out: &mut Vec<u8>, bytes: &[u8], from: usize, to: usize)
    requires
        from <= to <= bytes@.len(),
    ensures
        final(out)@ == old(out)@ + bytes@.subrange(from as int, to as int),
{
    let mut i: usize = from;
    while i < to
        invariant
            from <= i <= to <= bytes@.len(),
            out@ == old(out)@ + bytes@.subrange(from as int, i as int),
        decreases to - i,
    {
        out.push(bytes[i]);
        proof {
            assert(bytes@.subrange(from as int, i + 1) =~= bytes@.subrange(from as int, i as int).push(
                bytes@[i as int],
            ));
        }
        i = i + 1;
    }
}

/// The `<path>:<line_number>:` prefix of a rendered line.
pub fn render_header(path: &str, line_number: usize) -> (r: Vec<u8>)
    ensures
        r@ == header(path.spec_bytes(), line_number as nat),
{
    let mut out: Vec<u8> = Vec::new();
    let p: &[u8] = path.as_bytes();
    append_bytes(&mut out, p, 0, p.len());
    out.push(COLON);
    push_decimal(&mut out, line_number);
    out.push(COLON);
    proof {
        assert(p@.subrange(0, p@.len() as int) =~= p@);
        assert(out@ =~= header(path.spec_bytes(), line_number as nat));
    }
    out
}

/// The uncolored rendering of a matched line.
pub fn render_plain(path: &str, line_number: usize, line: &str) -> (r: Vec<u8>)
    ensures
        r@ == plain_rendering(path.spec_bytes(), line_number as nat, line.spec_bytes()),
{
    let mut out = render_header(path, line_number);
    let l: &[u8] = line.as_bytes();
    append_bytes(&mut out, l, 0, l.len());
    proof {
        assert(l@.subrange(0, l@.len() as int) =~= l@);
    }
    out
}

/// The parts of a colored rendering: the header, drawn dim, then the line
/// cut around the match, which is drawn bold.
pub struct ColoredLine {
    pub header: Vec<u8>,
    pub before: Vec<u8>,
    pub matched: Vec<u8>,
    pub after: Vec<u8>,
}

/// The colored rendering of a line whose match spans bytes `start..end`.
pub fn render_colored(path: &str, line_number: usize, line: &str, start: usize, end: usize) -> (r:
    ColoredLine)
    requires
        start <= end <= line.spec_bytes().len(),
    ensures
        r.header@ == header(path.spec_bytes(), line_number as nat),
        r.before@ == line.spec_bytes().subrange(0, start as int),
        r.matched@ == line.spec_bytes().subrange(start as int, end as int),
        r.after@ == line.spec_bytes().subrange(end as int, line.spec_bytes().len() as int),
{
    let l: &[u8] = line.as_bytes();
    let mut before: Vec<u8> = Vec::new();
    append_bytes(&mut before, l, 0, start);
    let mut matched: Vec<u8> = Vec::new();
    append_bytes(&mut matched, l, start, end);
    let mut after: Vec<u8> = Vec::new();
    append_bytes(&mut after, l, end, l.len());
    proof {
        assert(before@ =~= l@.subrange(0, start as int));
        assert(matched@ =~= l@.subrange(start as int, end as int));
        assert(after@ =~= l@.subrange(end as int, l@.len() as int));
    }
    ColoredLine { header: render_header(path, line_number), before, matched, after }
}

} // verus!
