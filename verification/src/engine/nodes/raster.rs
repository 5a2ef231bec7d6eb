//! Decoded pictures: formats and the packing of padded rows.
use crate::engine::node::{NodeError, NodeErrorView};
use crate::engine::nodes::config::failed;
use crate::text::{
    ascii_lowercase, ascii_lowered, same_text,
};
use vstd::prelude::*;

verus! {

/// The picture formats that can be decoded.
#[derive(Clone, Copy, Debug, PartialEq, Eq, Structural)]
pub enum RasterFormat {
    Png,
    Jpeg,
}

/// The format that a file name extension stands for.
pub open spec fn format_of(extension: Seq<char>) -> Option<RasterFormat> {
    if extension == "png"@ {
        Some(RasterFormat::Png)
    } else if extension == "jpg"@ || extension == "jpeg"@ {
        Some(RasterFormat::Jpeg)
    } else {
        None
    }
}

pub fn raster_format(extension: &str) -> (r: Option<RasterFormat>)
    ensures
        r == format_of(extension@),
{
    if same_text(extension, "png") {
        Some(RasterFormat::Png)
    } else if same_text(extension, "jpg") || same_text(extension, "jpeg") {
        Some(RasterFormat::Jpeg)
    } else {
        None
    }
}

/// The position after the last occurrence of a character, or the beginning.
pub open spec fn after_last(s: Seq<char>, c: char) -> int
    decreases s.len(),
{
    if s.len() == 0 {
        0
    } else if s.last() == c {
        s.len() as int
    } else {
        after_last(s.drop_last(), c)
    }
}

/// Finds the position after the last occurrence of a character, or the beginning.
pub fn find_after_last(s: &str, c: char) -> (r: usize)
    ensures
        r == after_last(s@, c),
        r <= s@.len(),
{
    let mut i: usize = s.unicode_len();
    proof {
        assert(s@.take(i as int) =~= s@);
    }
    while i > 0 && s.get_char(i - 1) != c
        invariant
            i <= s@.len(),
            after_last(s@, c) == after_last(s@.take(i as int), c),
        decreases i,
    {
        proof {
            assert(s@.take(i as int).drop_last() =~= s@.take(i - 1));
        }
        i = i - 1;
    }
    proof {
        if i > 0 {
            assert(s@.take(i as int).last() == c);
        }
    }
    i
}

/// The part of a path after its last dot, in lower case; the whole path where it has none.
pub open spec fn last_dotted(path: Seq<char>) -> Seq<char> {
    ascii_lowered(path.skip(after_last(path, '.')))
}

pub fn read_last_dotted(path: &str) -> (r: String)
    ensures
        r@ == last_dotted(path@),
{
    let n: usize = path.unicode_len();
    let from: usize = find_after_last(path, '.');
    let part: &str = path.substring_char(from, n);
    proof {
        assert(path@.subrange(from as int, n as int) =~= path@.skip(from as int));
    }
    ascii_lowercase(part)
}

/// The last named component of a path whose separator is `/`; `.` components do not count, and a path
/// that ends in `..` has none.
pub open spec fn file_name(s: Seq<char>) -> Option<Seq<char>>
    decreases s.len(),
{
    if s.len() == 0 {
        None
    } else if s.last() == '/' {
        file_name(s.drop_last())
    } else {
        let start = after_last(s, '/');
        let base = s.skip(start);
        if base == "."@ {
            if start <= 0 || start >= s.len() {
                None
            } else {
                file_name(s.take(start))
            }
        } else if base == ".."@ {
            None
        } else {
            Some(base)
        }
    }
}

fn read_file_name(s: &str) -> (r: Option<&str>)
    ensures
        match r {
            Some(name) => file_name(s@) == Some(name@),
            None => file_name(s@) is None,
        },
{
    let mut n: usize = s.unicode_len();
    proof {
        assert(s@.take(n as int) =~= s@);
    }
    while n > 0
        invariant
            n <= s@.len(),
            file_name(s@) == file_name(s@.take(n as int)),
        decreases n,
    {
        let ghost head = s@.take(n as int);
        if s.get_char(n - 1) == '/' {
            proof {
                assert(head.drop_last() =~= s@.take(n - 1));
            }
            n = n - 1;
        } else {
            let part: &str = s.substring_char(0, n);
            proof {
                assert(s@.subrange(0, n as int) =~= head);
            }
            let start: usize = find_after_last(part, '/');
            let base: &str = part.substring_char(start, n);
            proof {
                assert(part@.subrange(start as int, n as int) =~= head.skip(start as int));
            }
            if same_text(base, ".") {
                if start == 0 || start >= n {
                    return None;
                }
                proof {
                    assert(head.take(start as int) =~= s@.take(start as int));
                }
                n = start;
            } else if same_text(base, "..") {
                return None;
            } else {
                let name: &str = s.substring_char(start, n);
                proof {
                    assert(s@.subrange(start as int, n as int) =~= head.skip(start as int));
                }
                return Some(name);
            }
        }
    }
    None
}

/// The extension of a path's file name in lower case: what follows its last dot, where that dot is
/// not the first character of the name.
pub open spec fn extension_of(path: Seq<char>) -> Option<Seq<char>> {
    match file_name(path) {
        None => None,
        Some(name) => {
            let start = after_last(name, '.');
            if start <= 1 {
                None
            } else {
                Some(ascii_lowered(name.skip(start)))
            }
        },
    }
}

/// The extension of a path's file name in lower case.
pub fn extension(path: &str) -> (r: Option<String>)
    ensures
        match r {
            Some(extension) => extension_of(path@) == Some(extension@),
            None => extension_of(path@) is None,
        },
{
    match read_file_name(path) {
        None => None,
        Some(name) => {
            let start: usize = find_after_last(name, '.');
            if start <= 1 {
                return None;
            }
            let n: usize = name.unicode_len();
            let part: &str = name.substring_char(start, n);
            proof {
                assert(name@.subrange(start as int, n as int) =~= name@.skip(start as int));
            }
            Some(ascii_lowercase(part))
        },
    }
}

/// A decoded picture whose rows may be padded.
#[derive(Debug)]
pub struct RgbaImage {
    pub width: u32,
    pub height: u32,
    pub stride: usize,
    pub pixels: Vec<u8>,
}

/// Why padded rows cannot be packed.
#[derive(Clone, Copy, Debug, PartialEq, Eq, Structural)]
pub enum RowFault {
    /// The position of a row cannot be addressed.
    Overflow,
    /// A row lies outside the bytes.
    Layout,
}

/// The first `rows` rows without their padding, or the fault of the first row that is not there.
pub open spec fn packed_rows(bytes: Seq<u8>, stride: nat, rows: nat, row_bytes: nat) -> Result<
    Seq<u8>,
    RowFault,
>
    decreases rows,
{
    if rows == 0 {
        Ok(Seq::empty())
    } else {
        match packed_rows(bytes, stride, (rows - 1) as nat, row_bytes) {
            Err(fault) => Err(fault),
            Ok(before) => {
                let start = (rows - 1) * stride;
                if start + row_bytes > usize::MAX {
                    Err(RowFault::Overflow)
                } else if start + row_bytes > bytes.len() {
                    Err(RowFault::Layout)
                } else {
                    Ok(before + bytes.subrange(start, start + row_bytes))
                }
            },
        }
    }
}

proof fn lemma_packed_fault_persists(
    bytes: Seq<u8>,
    stride: nat,
    few: nat,
    rows: nat,
    row_bytes: nat,
)
    requires
        few <= rows,
        packed_rows(bytes, stride, few, row_bytes) is Err,
    ensures
        packed_rows(bytes, stride, rows, row_bytes) == packed_rows(bytes, stride, few, row_bytes),
    decreases rows - few,
{
    if few < rows {
        lemma_packed_fault_persists(bytes, stride, few, (rows - 1) as nat, row_bytes);
    }
}

/// Rows that could be packed fill exactly their own bytes.
pub proof fn law_packed_length(bytes: Seq<u8>, stride: nat, rows: nat, row_bytes: nat)
    requires
        packed_rows(bytes, stride, rows, row_bytes) is Ok,
    ensures
        packed_rows(bytes, stride, rows, row_bytes)->Ok_0.len() == rows * row_bytes,
    decreases rows,
{
    if rows > 0 {
        law_packed_length(bytes, stride, (rows - 1) as nat, row_bytes);
        assert((rows - 1) * row_bytes + row_bytes == rows * row_bytes) by (nonlinear_arith);
        assert((rows - 1) * stride >= 0) by (nonlinear_arith)
            requires
                rows >= 1,
        ;
    } else {
        assert(rows * row_bytes == 0) by (nonlinear_arith)
            requires
                rows == 0,
        ;
    }
}

/// Copies rows without their padding.
pub fn pack_rows(bytes: &Vec<u8>, stride: usize, rows: u32, row_bytes: usize) -> (r: Result<
    Vec<u8>,
    RowFault,
>)
    ensures
        match packed_rows(bytes@, stride as nat, rows as nat, row_bytes as nat) {
            Ok(packed) => r is Ok && r->Ok_0@ == packed,
            Err(fault) => r == Err::<Vec<u8>, RowFault>(fault),
        },
{
    let mut out: Vec<u8> = Vec::new();
    let mut start: usize = 0;
    let mut row: u32 = 0;
    proof {
        assert(out@ =~= Seq::<u8>::empty());
    }
    while row < rows
        invariant
            row <= rows,
            row < rows ==> start == row * stride,
            packed_rows(bytes@, stride as nat, row as nat, row_bytes as nat) == Ok::<
                Seq<u8>,
                RowFault,
            >(out@),
        decreases rows - row,
    {
        let ghost before = out@;
        let ghost next = (row + 1) as nat;
        proof {
            assert((next - 1) as nat == row as nat);
            if packed_rows(bytes@, stride as nat, next, row_bytes as nat) is Err {
                lemma_packed_fault_persists(
                    bytes@,
                    stride as nat,
                    next,
                    rows as nat,
                    row_bytes as nat,
                );
            }
        }
        if row_bytes > usize::MAX - start {
            return Err(RowFault::Overflow);
        }
        let end: usize = start + row_bytes;
        if end > bytes.len() {
            return Err(RowFault::Layout);
        }
        let mut i: usize = start;
        while i < end
            invariant
                start <= i <= end <= bytes@.len(),
                out@ == before + bytes@.subrange(start as int, i as int),
            decreases end - i,
        {
            out.push(bytes[i]);
            proof {
                assert(out@ =~= before + bytes@.subrange(start as int, i + 1));
            }
            i = i + 1;
        }
        proof {
            assert(out@ == before + bytes@.subrange(start as int, end as int));
            assert(row * stride + stride == (row + 1) * stride) by (nonlinear_arith);
        }
        if row + 1 < rows {
            if stride > usize::MAX - start {
                proof {
                    let after = (row + 2) as nat;
                    assert((after - 1) as nat == next);
                    assert((after - 1) * (stride as nat) == (row + 1) * stride);
                    assert(packed_rows(bytes@, stride as nat, after, row_bytes as nat) == Err::<
                        Seq<u8>,
                        RowFault,
                    >(RowFault::Overflow));
                    lemma_packed_fault_persists(
                        bytes@,
                        stride as nat,
                        after,
                        rows as nat,
                        row_bytes as nat,
                    );
                }
                return Err(RowFault::Overflow);
            }
            start = start + stride;
        }
        row = row + 1;
    }
    Ok(out)
}

/// The pixels of a picture without row padding.
pub open spec fn compacted(image: RgbaImage) -> Result<Seq<u8>, NodeErrorView> {
    if image.width * 4 > usize::MAX {
        Err(NodeErrorView::Execution("image width overflow"@))
    } else if image.width * 4 * image.height > usize::MAX {
        Err(NodeErrorView::Execution("image size overflow"@))
    } else {
        match packed_rows(
            image.pixels@,
            image.stride as nat,
            image.height as nat,
            (image.width * 4) as nat,
        ) {
            Ok(packed) => Ok(packed),
            Err(_) => Err(NodeErrorView::Execution("image stride/layout inconsistent"@)),
        }
    }
}

/// Copies the pixels of a picture without row padding.
pub fn compact_rgba8(image: &RgbaImage) -> (r: Result<Vec<u8>, NodeError>)
    ensures
        match compacted(*image) {
            Ok(packed) => r is Ok && r->Ok_0@ == packed,
            Err(error) => failed(r, error),
        },
{
    let row_bytes: usize = match (image.width as usize).checked_mul(4) {
        Some(n) => n,
        None => {
            return Err(NodeError::execution("image width overflow"));
        },
    };
    match row_bytes.checked_mul(image.height as usize) {
        Some(_) => {},
        None => {
            return Err(NodeError::execution("image size overflow"));
        },
    }
    match pack_rows(&image.pixels, image.stride, image.height, row_bytes) {
        Ok(packed) => Ok(packed),
        Err(_) => Err(NodeError::execution("image stride/layout inconsistent")),
    }
}

} // verus!
