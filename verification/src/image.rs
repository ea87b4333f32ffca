//! Sizes and media types of the PNG and JPEG images that a DOCX embeds,
//! read from the files' own bytes.

use vstd::prelude::*;
use crate::paths::{file_name_start, last_index};
use crate::text::{chars_of, push_char};

verus! {

/// The eight bytes every PNG file starts with.
pub open spec fn png_signature() -> Seq<u8> {
    seq![0x89u8, 0x50u8, 0x4Eu8, 0x47u8, 0x0Du8, 0x0Au8, 0x1Au8, 0x0Au8]
}

/// `p` is a prefix of `s`.
pub open spec fn bytes_start_with(s: Seq<u8>, p: Seq<u8>) -> bool {
    p.len() <= s.len() && s.subrange(0, p.len() as int) == p
}

/// The big-endian 32-bit number at `i`.
pub open spec fn be_u32(s: Seq<u8>, i: int) -> nat {
    (s[i] as nat) * 0x1000000 + (s[i + 1] as nat) * 0x10000 + (s[i + 2] as nat) * 0x100 + (s[i + 3] as nat)
}

/// The big-endian 16-bit number at `i`.
pub open spec fn be_u16(s: Seq<u8>, i: int) -> nat {
    (s[i] as nat) * 0x100 + (s[i + 1] as nat)
}

/// Width and height of a PNG image, from its header chunk.
pub open spec fn png_size(data: Seq<u8>) -> Option<(nat, nat)> {
    if data.len() < 24 || !bytes_start_with(data, png_signature()) {
        None
    } else {
        Some((be_u32(data, 16), be_u32(data, 20)))
    }
}

fn bytes_prefix(data: &[u8], p: &[u8]) -> (b: bool)
    ensures
        b == bytes_start_with(data@, p@),
{
    if p.len() > data.len() {
        return false;
    }
    let mut i: usize = 0;
    while i < p.len()
        invariant
            p.len() <= data.len(),
            i <= p.len(),
            forall|j: int| 0 <= j < i ==> data@[j] == p@[j],
        decreases p.len() - i,
    {
        if data[i] != p[i] {
            assert(data@.subrange(0, p.len() as int)[i as int] != p@[i as int]);
            return false;
        }
        i += 1;
    }
    assert(data@.subrange(0, p.len() as int) =~= p@);
    true
}

fn read_be_u32(data: &[u8], i: usize) -> (r: u32)
    requires
        i + 4 <= data.len(),
    ensures
        r as nat == be_u32(data@, i as int),
{
    let a = data[i] as u32;
    let b = data[i + 1] as u32;
    let c = data[i + 2] as u32;
    let d = data[i + 3] as u32;
    assert(a * 0x1000000 + b * 0x10000 + c * 0x100 + d <= 0xFFFFFFFF) by (nonlinear_arith)
        requires a < 256, b < 256, c < 256, d < 256;
    a * 0x1000000 + b * 0x10000 + c * 0x100 + d
}

fn read_be_u16(data: &[u8], i: usize) -> (r: usize)
    requires
        i + 2 <= data.len(),
    ensures
        r as nat == be_u16(data@, i as int),
        r < 0x10000,
{
    let a = data[i] as usize;
    let b = data[i + 1] as usize;
    a * 0x100 + b
}

/// Width and height of a PNG image (see `png_size`).
pub fn png_dimensions(data: &[u8]) -> (r: Option<(u32, u32)>)
    ensures
        match r {
            Some((w, h)) => png_size(data@) == Some((w as nat, h as nat)),
            None => png_size(data@) is None,
        },
{
    let sig: [u8; 8] = [0x89, 0x50, 0x4E, 0x47, 0x0D, 0x0A, 0x1A, 0x0A];
    assert(sig@ =~= png_signature());
    if data.len() < 24 || !bytes_prefix(data, &sig) {
        return None;
    }
    let width = read_be_u32(data, 16);
    let height = read_be_u32(data, 20);
    Some((width, height))
}

/// The JPEG markers of a frame header, which holds the image's size.
pub open spec fn is_sof_marker(m: u8) -> bool {
    m == 0xC0 || m == 0xC1 || m == 0xC2 || m == 0xC3 || m == 0xC5 || m == 0xC6 || m == 0xC7
        || m == 0xC9 || m == 0xCA || m == 0xCB || m == 0xCD || m == 0xCE || m == 0xCF
}

/// What walking a JPEG's segments finds: the size in a frame header, no
/// size, or a frame header too short to read the size from.
pub enum JpegScan {
    Found(nat, nat),
    NotFound,
    Truncated,
}

/// The first position at or after `i` that does not hold `0xFF`.
pub open spec fn skip_fill(data: Seq<u8>, i: int) -> int
    decreases data.len() - i,
{
    if i < data.len() && 0 <= i && data[i] == 0xFF { skip_fill(data, i + 1) } else { i }
}

/// Walks the segments of a JPEG from `index`: skips `0xFF` fill bytes,
/// stops at the end of the image or the start of scan, and reads width and
/// height from the first frame header.
pub open spec fn jpeg_scan(data: Seq<u8>, index: int) -> JpegScan
    decreases data.len() - index,
{
    if index < 0 || !(index + 9 < data.len()) {
        JpegScan::NotFound
    } else {
        let i = skip_fill(data, index);
        if i >= data.len() || i < index {
            JpegScan::NotFound
        } else {
            let marker = data[i];
            let j = i + 1;
            if marker == 0xD9 || marker == 0xDA {
                JpegScan::NotFound
            } else if j + 2 > data.len() {
                JpegScan::NotFound
            } else {
                let length = be_u16(data, j);
                if length < 2 || j + length > data.len() {
                    JpegScan::NotFound
                } else if is_sof_marker(marker) {
                    if j + 7 > data.len() {
                        JpegScan::Truncated
                    } else {
                        JpegScan::Found(be_u16(data, j + 5), be_u16(data, j + 3))
                    }
                } else {
                    jpeg_scan(data, j + length)
                }
            }
        }
    }
}

/// What `jpeg_dimensions` finds in `data`.
pub open spec fn jpeg_size(data: Seq<u8>) -> JpegScan {
    if data.len() < 4 || !bytes_start_with(data, seq![0xFFu8, 0xD8u8]) {
        JpegScan::NotFound
    } else {
        jpeg_scan(data, 2)
    }
}

proof fn lemma_skip_fill(data: Seq<u8>, i: int)
    requires
        0 <= i,
    ensures
        i <= skip_fill(data, i),
        skip_fill(data, i) <= data.len() || skip_fill(data, i) == i,
        forall|k: int| i <= k < skip_fill(data, i) ==> data[k] == 0xFF,
        skip_fill(data, i) < data.len() ==> data[skip_fill(data, i)] != 0xFF,
    decreases data.len() - i,
{
    if i < data.len() && data[i] == 0xFF {
        lemma_skip_fill(data, i + 1);
    }
}

/// Walks a JPEG's segments (see `jpeg_scan`); the frame header must not be
/// cut short.
pub fn jpeg_scan_result(data: &[u8]) -> (r: (bool, Option<(u32, u32)>))
    ensures
        match jpeg_size(data@) {
            JpegScan::Found(w, h) => r == (true, Some((w as u32, h as u32))) && w < 0x10000 && h < 0x10000,
            JpegScan::NotFound => r == (true, None::<(u32, u32)>),
            JpegScan::Truncated => !r.0,
        },
{
    let soi: [u8; 2] = [0xFF, 0xD8];
    assert(soi@ =~= seq![0xFFu8, 0xD8u8]);
    if data.len() < 4 || !bytes_prefix(data, &soi) {
        return (true, None);
    }
    let mut index: usize = 2;
    while index < data.len() && data.len() - index > 9
        invariant
            2 <= index <= data.len(),
            jpeg_size(data@) == jpeg_scan(data@, index as int),
        decreases data.len() - index,
    {
        let ghost start = index as int;
        proof { lemma_skip_fill(data@, start); }
        while index < data.len() && data[index] == 0xFF
            invariant
                start <= index <= data.len(),
                skip_fill(data@, start) == skip_fill(data@, index as int),
            decreases data.len() - index,
        {
            index += 1;
        }
        if index >= data.len() {
            return (true, None);
        }
        let marker = data[index];
        index += 1;
        if marker == 0xD9 || marker == 0xDA {
            return (true, None);
        }
        if data.len() - index < 2 {
            return (true, None);
        }
        let length = read_be_u16(data, index);
        if length < 2 || length > data.len() - index {
            return (true, None);
        }
        if marker == 0xC0 || marker == 0xC1 || marker == 0xC2 || marker == 0xC3 || marker == 0xC5
            || marker == 0xC6 || marker == 0xC7 || marker == 0xC9 || marker == 0xCA || marker == 0xCB
            || marker == 0xCD || marker == 0xCE || marker == 0xCF {
            if data.len() - index < 7 {
                return (false, None);
            }
            let height = read_be_u16(data, index + 3) as u32;
            let width = read_be_u16(data, index + 5) as u32;
            return (true, Some((width, height)));
        }
        index += length;
    }
    (true, None)
}

/// Width and height of a JPEG image from its first frame header (see
/// `jpeg_size`); the frame header must hold the size.
pub fn jpeg_dimensions(data: &[u8]) -> (r: Option<(u32, u32)>)
    requires
        !(jpeg_size(data@) is Truncated),
    ensures
        match jpeg_size(data@) {
            JpegScan::Found(w, h) => r == Some((w as u32, h as u32)),
            _ => r is None,
        },
{
    jpeg_scan_result(data).1
}

/// Width and height of a PNG or JPEG image.
pub fn image_dimensions(data: &[u8]) -> (r: Option<(u32, u32)>)
    requires
        png_size(data@) is None ==> !(jpeg_size(data@) is Truncated),
    ensures
        match png_size(data@) {
            Some((w, h)) => r == Some((w as u32, h as u32)),
            None => match jpeg_size(data@) {
                JpegScan::Found(w, h) => r == Some((w as u32, h as u32)),
                _ => r is None,
            },
        },
{
    match png_dimensions(data) {
        Some(d) => Some(d),
        None => jpeg_dimensions(data),
    }
}

/// ASCII case-insensitive equality of characters.
pub open spec fn lower_ascii(c: char) -> char {
    if 'A' <= c <= 'Z' { ((c as u8) + 32) as char } else { c }
}

pub open spec fn eq_ignore_ascii_case(a: Seq<char>, b: Seq<char>) -> bool {
    a.len() == b.len() && forall|i: int| 0 <= i < a.len() ==> lower_ascii(a[i]) == lower_ascii(b[i])
}

/// The extension of a path's file name, as `Path::extension` gives it.
pub open spec fn extension_of(p: Seq<char>) -> Option<Seq<char>> {
    let k = file_name_start(p);
    let name = p.subrange(k, p.len() as int);
    if name.len() == 0 || name == seq!['.'] || name == seq!['.', '.'] {
        None
    } else {
        match last_index(name, '.') {
            Some(d) => if d > 0 { Some(name.subrange(d + 1, name.len() as int)) } else { None },
            None => None,
        }
    }
}

/// The media type of an image: by its first bytes, or else by its
/// extension; `None` for anything but PNG and JPEG.
pub open spec fn image_type(path: Seq<char>, data: Seq<u8>) -> Option<Seq<char>> {
    if bytes_start_with(data, png_signature()) {
        Some("image/png"@)
    } else if bytes_start_with(data, seq![0xFFu8, 0xD8u8, 0xFFu8]) {
        Some("image/jpeg"@)
    } else {
        match extension_of(path) {
            Some(e) => if eq_ignore_ascii_case(e, "png"@) {
                Some("image/png"@)
            } else if eq_ignore_ascii_case(e, "jpg"@) || eq_ignore_ascii_case(e, "jpeg"@) {
                Some("image/jpeg"@)
            } else {
                None
            },
            None => None,
        }
    }
}

fn lower(c: char) -> (r: char)
    ensures
        r == lower_ascii(c),
{
    if 'A' <= c && c <= 'Z' { ((c as u8) + 32) as char } else { c }
}

fn eq_ignore_case(a: &[char], b: &str) -> (r: bool)
    ensures
        r == eq_ignore_ascii_case(a@, b@),
{
    let bv = chars_of(b);
    if a.len() != bv.len() {
        return false;
    }
    let mut i: usize = 0;
    while i < a.len()
        invariant
            a.len() == bv.len(),
            bv@ == b@,
            i <= a.len(),
            forall|j: int| 0 <= j < i ==> lower_ascii(a@[j]) == lower_ascii(bv@[j]),
        decreases a.len() - i,
    {
        if lower(a[i]) != lower(bv[i]) {
            return false;
        }
        i += 1;
    }
    true
}

/// The extension of `path` (see `extension_of`).
pub fn path_extension(path: &str) -> (r: Option<Vec<char>>)
    ensures
        match r {
            Some(e) => extension_of(path@) == Some(e@),
            None => extension_of(path@) is None,
        },
{
    let s = chars_of(path);
    proof { crate::paths::lemma_last_index(s@, '/'); }
    let k = match crate::paths::find_last_char(&s, '/') {
        Some(k) => k + 1,
        None => 0,
    };
    let name = crate::text::slice_to_vec(&s, k, s.len());
    if name.len() == 0 || (name.len() == 1 && name[0] == '.')
        || (name.len() == 2 && name[0] == '.' && name[1] == '.') {
        proof {
            if name.len() == 1 { assert(name@ =~= seq!['.']); }
            if name.len() == 2 { assert(name@ =~= seq!['.', '.']); }
        }
        return None;
    }
    proof {
        if name.len() == 1 { assert(name@ != seq!['.']) by { if name@ == seq!['.'] { assert(name@[0] == '.'); } } }
        if name.len() == 2 {
            assert(name@ != seq!['.', '.']) by {
                if name@ == seq!['.', '.'] { assert(name@[0] == '.' && name@[1] == '.'); }
            }
        }
        crate::paths::lemma_last_index(name@, '.');
    }
    match crate::paths::find_last_char(&name, '.') {
        Some(d) => if d > 0 { Some(crate::text::slice_to_vec(&name, d + 1, name.len())) } else { None },
        None => None,
    }
}

/// The media type of an image (see `image_type`).
pub fn image_content_type(path: &str, data: &[u8]) -> (r: Option<&'static str>)
    ensures
        match r {
            Some(t) => image_type(path@, data@) == Some(t@),
            None => image_type(path@, data@) is None,
        },
{
    let sig: [u8; 8] = [0x89, 0x50, 0x4E, 0x47, 0x0D, 0x0A, 0x1A, 0x0A];
    assert(sig@ =~= png_signature());
    if bytes_prefix(data, &sig) {
        return Some("image/png");
    }
    let jpg: [u8; 3] = [0xFF, 0xD8, 0xFF];
    assert(jpg@ =~= seq![0xFFu8, 0xD8u8, 0xFFu8]);
    if bytes_prefix(data, &jpg) {
        return Some("image/jpeg");
    }
    match path_extension(path) {
        Some(e) => {
            if eq_ignore_case(&e, "png") {
                Some("image/png")
            } else if eq_ignore_case(&e, "jpg") || eq_ignore_case(&e, "jpeg") {
                Some("image/jpeg")
            } else {
                None
            }
        },
        None => None,
    }
}

/// The markers of the JPEG frame headers that carry an image's size: the
/// baseline, extended, progressive and lossless frames of every coding
/// (`0xC0` to `0xCF` but for `0xC4`, `0xC8` and `0xCC`, which are not
/// frame headers).
pub open spec fn frame_header_marker(m: u8) -> bool {
    0xC0 <= m <= 0xCF && m != 0xC4 && m != 0xC8 && m != 0xCC
}

/// A frame header at `i`: the marker byte `0xFF`, a frame header marker, a
/// segment length of at least 2 that fits in `data`, and the size fields
/// within the data.
pub open spec fn frame_header_at(data: Seq<u8>, i: int) -> bool {
    &&& 0 <= i
    &&& i + 10 <= data.len()
    &&& data[i] == 0xFF
    &&& frame_header_marker(data[i + 1])
    &&& be_u16(data, i + 2) >= 2
    &&& i + 2 + be_u16(data, i + 2) <= data.len()
}

/// The size a JPEG reports comes from its first frame header, whatever
/// kind of frame it is (progressive ones included): where the walk of the
/// segments reaches a frame header, the width is the 16-bit big-endian
/// number at offset 7 of it and the height the one at offset 5. In
/// particular a JPEG whose first segment after the start marker is a frame
/// header has that size.
pub proof fn lemma_jpeg_frame_size(data: Seq<u8>, i: int)
    requires
        frame_header_at(data, i),
    ensures
        jpeg_scan(data, i) == JpegScan::Found(be_u16(data, i + 7), be_u16(data, i + 5)),
        i == 2 && bytes_start_with(data, seq![0xFFu8, 0xD8u8])
            ==> jpeg_size(data) == JpegScan::Found(be_u16(data, 9), be_u16(data, 7)),
{
    assert(data[i + 1] != 0xFF);
    assert(skip_fill(data, i + 1) == i + 1);
    assert(skip_fill(data, i) == i + 1);
    assert(is_sof_marker(data[i + 1]));
}

/// Segments before the first frame header are passed over: where the walk
/// meets a segment that is neither a frame header, the end of the image
/// nor the start of the scan, and whose length fits, it goes on right
/// after that segment.
pub proof fn lemma_jpeg_skip_segment(data: Seq<u8>, i: int)
    requires
        0 <= i,
        i + 10 <= data.len(),
        data[i] == 0xFF,
        data[i + 1] != 0xFF,
        !frame_header_marker(data[i + 1]),
        data[i + 1] != 0xD9,
        data[i + 1] != 0xDA,
        be_u16(data, i + 2) >= 2,
        i + 2 + be_u16(data, i + 2) <= data.len(),
    ensures
        jpeg_scan(data, i) == jpeg_scan(data, i + 2 + be_u16(data, i + 2)),
{
    assert(skip_fill(data, i + 1) == i + 1);
    assert(skip_fill(data, i) == i + 1);
    assert(!is_sof_marker(data[i + 1]));
}

} // verus!
