//! Text decoding and splitting into lines that keep their terminators.

use vstd::prelude::*;
use vstd::string::StringSliceAdditionalSpecFns;
use vstd::utf8::*;

verus! {

/// The newline byte.
pub const NEWLINE: u8 = 10;

/// The bytes of each line, in order.
pub open spec fn line_bytes(lines: Seq<&str>) -> Seq<Seq<u8>> {
    lines.map_values(|l: &str| l.spec_bytes())
}

/// `lines` is the split of `text` into lines, each line keeping its
/// terminating newline: the lines put back together give `text`, no line
/// is empty, a newline can only end a line, and every line but the last
/// ends with one.
pub open spec fn is_line_split(text: Seq<u8>, lines: Seq<Seq<u8>>) -> bool {
    &&& lines.flatten() == text
    &&& forall|i: int| 0 <= i < lines.len() ==> #[trigger] lines[i].len() > 0
    &&& forall|i: int, j: int|
        0 <= i < lines.len() && 0 <= j < lines[i].len() - 1 ==> #[trigger] lines[i][j] != NEWLINE
    &&& forall|i: int| 0 <= i < lines.len() - 1 ==> #[trigger] lines[i].last() == NEWLINE
}

/// In valid UTF-8, the position right after an ASCII byte starts a character.
proof fn lemma_boundary_after_ascii(b: Seq<u8>, k: int)
    requires
        valid_utf8(b),
        0 < k <= b.len(),
        is_leading_byte_width_1(b[k - 1]),
    ensures
        is_char_boundary(b, k),
    decreases b.len(),
{
    let n = length_of_first_scalar(b);
    reveal_with_fuel(is_char_boundary, 2);
    if k - 1 < n {
        if k - 1 > 0 {
            assert(is_continuation_byte(b[k - 1]));
        }
        assert(n == 1);
        is_char_boundary_start_end_of_seq(pop_first_scalar(b));
    } else {
        let rest = pop_first_scalar(b);
        assert(rest[k - n - 1] == b[k - 1]);
        lemma_boundary_after_ascii(rest, k - n);
    }
}

/// The error `std::str::from_utf8` gives for bytes that are not UTF-8,
/// carried opaquely.
#[verifier::external_type_specification]
#[verifier::external_body]
pub struct ExUtf8Error(std::str::Utf8Error);

/// Relies on `std::str::from_utf8`: it succeeds exactly on valid UTF-8, and
/// the text it gives is those same bytes.
#[verifier::external_body]
fn decode_utf8_text(data: &[u8]) -> (r: Result<&str, std::str::Utf8Error>)
    ensures
        r is Ok <==> valid_utf8(data@),
        r matches Ok(t) ==> t.spec_bytes() == data@,
{
    std::str::from_utf8(data)
}

/// Splits `text` into its lines, each keeping its trailing newline.
pub fn split_lines(text: &str) -> (r: Vec<&str>)
    ensures
        is_line_split(text.spec_bytes(), line_bytes(r@)),
{
    let mut lines: Vec<&str> = Vec::new();
    let mut rest: &str = text;
    proof {
        encode_utf8_valid_utf8(text@);
        assert(line_bytes(lines@).flatten_alt() + rest.spec_bytes() =~= text.spec_bytes());
    }
    while rest.as_bytes().len() > 0
        invariant
            valid_utf8(rest.spec_bytes()),
            line_bytes(lines@).flatten_alt() + rest.spec_bytes() == text.spec_bytes(),
            forall|i: int| 0 <= i < lines.len() ==> #[trigger] lines@[i].spec_bytes().len() > 0,
            forall|i: int, j: int|
                0 <= i < lines.len() && 0 <= j < lines@[i].spec_bytes().len() - 1
                    ==> #[trigger] lines@[i].spec_bytes()[j] != NEWLINE,
            forall|i: int| 0 <= i < lines.len() && (i < lines.len() - 1 || rest.spec_bytes().len() > 0)
                ==> #[trigger] lines@[i].spec_bytes().last() == NEWLINE,
        decreases rest.spec_bytes().len(),
    {
        let bytes: &[u8] = rest.as_bytes();
        let mut k: usize = 0;
        while k < bytes.len() && bytes[k] != NEWLINE
            invariant
                bytes@ == rest.spec_bytes(),
                k <= bytes@.len(),
                forall|j: int| 0 <= j < k ==> bytes@[j] != NEWLINE,
            decreases bytes@.len() - k,
        {
            k = k + 1;
        }
        let end: usize = if k < bytes.len() { k + 1 } else { k };
        proof {
            if k < bytes.len() {
                lemma_boundary_after_ascii(rest.spec_bytes(), end as int);
            } else {
                is_char_boundary_start_end_of_seq(rest.spec_bytes());
            }
            valid_utf8_split(rest.spec_bytes(), end as int);
        }
        let (line, tail) = rest.split_at(end);
        proof {
            let old_lines = lines@;
            let new_lines = old_lines.push(line);
            assert(line_bytes(new_lines).drop_last() =~= line_bytes(old_lines));
            assert(line_bytes(new_lines).flatten_alt() == line_bytes(old_lines).flatten_alt()
                + line.spec_bytes());
            assert(rest.spec_bytes() =~= line.spec_bytes() + tail.spec_bytes());
            assert(line_bytes(new_lines).flatten_alt() + tail.spec_bytes() =~= text.spec_bytes());
        }
        lines.push(line);
        rest = tail;
    }
    proof {
        assert(rest.spec_bytes().len() == 0);
        assert(line_bytes(lines@).flatten_alt() =~= text.spec_bytes());
        line_bytes(lines@).lemma_flatten_and_flatten_alt_are_equivalent();
        let lb = line_bytes(lines@);
        assert forall|i: int, j: int| 0 <= i < lb.len() && 0 <= j < lb[i].len() - 1
            implies #[trigger] lb[i][j] != NEWLINE by {
            assert(lb[i] == lines@[i].spec_bytes());
        }
        assert forall|i: int| 0 <= i < lb.len() implies #[trigger] lb[i].len() > 0 by {
            assert(lb[i] == lines@[i].spec_bytes());
        }
        assert forall|i: int| 0 <= i < lb.len() - 1 implies #[trigger] lb[i].last() == NEWLINE by {
            assert(lb[i] == lines@[i].spec_bytes());
        }
    }
    lines
}

/// Decodes a file's bytes as text and splits it into lines; fails, with the
/// decoder's error, exactly when the bytes are not valid UTF-8.
pub fn decode_lines(data: &[u8]) -> (r: Result<Vec<&str>, std::str::Utf8Error>)
    ensures
        r is Err <==> !valid_utf8(data@),
        r matches Ok(lines) ==> is_line_split(data@, line_bytes(lines@)),
{
    match decode_utf8_text(data) {
        Ok(text) => Ok(split_lines(text)),
        Err(e) => Err(e),
    }
}

} // verus!
