use vstd::prelude::*;
use vstd::string::StrSliceExecFns;
use vstd::string::StringExecFns;

verus! {

/// How many characters a message needs before it is shown in two pieces
/// is twice this; a piece is about this long.
pub const SECTION_LENGTH: usize = 200;

/// Into how many pieces a message of `length` characters is cut.
pub open spec fn section_count(length: int) -> int {
    if length / (SECTION_LENGTH as int) >= 1 {
        length / (SECTION_LENGTH as int)
    } else {
        1
    }
}

/// How long every piece but the last is.
pub open spec fn section_size(length: int) -> int {
    length / section_count(length)
}

/// The piece at position `i`: pieces are cut one after the other, the last
/// takes what is left, and every piece between the first and the last ends
/// in three dots.
pub open spec fn section_text(message: Seq<char>, i: int) -> Seq<char> {
    let count = section_count(message.len() as int);
    let size = section_size(message.len() as int);
    if i == count - 1 {
        message.subrange(i * size, message.len() as int)
    } else if i == 0 {
        message.subrange(0, size)
    } else {
        message.subrange(i * size, (i + 1) * size) + "..."@
    }
}

/// Cuts a message into the pieces that are shown one after the other.
pub fn bubble_sections(message: &str) -> (sections: Vec<String>)
    ensures
        sections@.len() == section_count(message@.len() as int),
        forall|i: int| 0 <= i < sections@.len() ==> (#[trigger] sections@[i])@ == section_text(message@, i),
{
    let length = message.unicode_len();
    let whole = length / SECTION_LENGTH;
    let count: usize = if whole >= 1 {
        whole
    } else {
        1
    };
    let size: usize = length / count;
    assert(count * size <= length) by (nonlinear_arith)
        requires
            size == length / count,
            count >= 1,
    ;
    let mut sections: Vec<String> = Vec::new();
    let mut start: usize = 0;
    let mut i: usize = 0;
    while i < count
        invariant
            i <= count,
            count == section_count(message@.len() as int),
            size == section_size(message@.len() as int),
            length == message@.len(),
            count * size <= length,
            start == i * size,
            sections@.len() == i,
            forall|k: int| 0 <= k < i ==> (#[trigger] sections@[k])@ == section_text(message@, k),
        decreases count - i,
    {
        assert((i + 1) * size == i * size + size) by (nonlinear_arith);
        assert((i + 1) * size <= count * size) by (nonlinear_arith)
            requires
                i + 1 <= count,
        ;
        let piece = if i == count - 1 {
            String::from_str(message.substring_char(start, length))
        } else if i == 0 {
            String::from_str(message.substring_char(0, size))
        } else {
            String::from_str(message.substring_char(start, start + size)).concat("...")
        };
        sections.push(piece);
        start = start + size;
        i += 1;
    }
    sections
}

} // verus!
