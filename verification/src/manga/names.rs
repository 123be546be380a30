//! The PDF names that the extraction looks for, as bytes.
use vstd::prelude::*;

verus! {

pub open spec fn key_subtype() -> Seq<u8> { seq![83u8, 117, 98, 116, 121, 112, 101] }
pub open spec fn name_image() -> Seq<u8> { seq![73u8, 109, 97, 103, 101] }
pub open spec fn key_filter() -> Seq<u8> { seq![70u8, 105, 108, 116, 101, 114] }
pub open spec fn name_dct_decode() -> Seq<u8> { seq![68u8, 67, 84, 68, 101, 99, 111, 100, 101] }
pub open spec fn name_jpx_decode() -> Seq<u8> { seq![74u8, 80, 88, 68, 101, 99, 111, 100, 101] }
pub open spec fn name_flate_decode() -> Seq<u8> { seq![70u8, 108, 97, 116, 101, 68, 101, 99, 111, 100, 101] }
pub open spec fn key_smask() -> Seq<u8> { seq![83u8, 77, 97, 115, 107] }
pub open spec fn key_width() -> Seq<u8> { seq![87u8, 105, 100, 116, 104] }
pub open spec fn key_height() -> Seq<u8> { seq![72u8, 101, 105, 103, 104, 116] }
pub open spec fn key_color_space() -> Seq<u8> { seq![67u8, 111, 108, 111, 114, 83, 112, 97, 99, 101] }
pub open spec fn name_device_gray() -> Seq<u8> { seq![68u8, 101, 118, 105, 99, 101, 71, 114, 97, 121] }
pub open spec fn name_device_rgb() -> Seq<u8> { seq![68u8, 101, 118, 105, 99, 101, 82, 71, 66] }

/// `Subtype`
pub fn subtype() -> (b: Vec<u8>) ensures b@ == key_subtype() {
    let b = vec![83u8, 117, 98, 116, 121, 112, 101];
    assert(b@ =~= key_subtype());
    b
}

/// `Image`
pub fn image() -> (b: Vec<u8>) ensures b@ == name_image() {
    let b = vec![73u8, 109, 97, 103, 101];
    assert(b@ =~= name_image());
    b
}

/// `Filter`
pub fn filter() -> (b: Vec<u8>) ensures b@ == key_filter() {
    let b = vec![70u8, 105, 108, 116, 101, 114];
    assert(b@ =~= key_filter());
    b
}

/// `DCTDecode`
pub fn dct_decode() -> (b: Vec<u8>) ensures b@ == name_dct_decode() {
    let b = vec![68u8, 67, 84, 68, 101, 99, 111, 100, 101];
    assert(b@ =~= name_dct_decode());
    b
}

/// `JPXDecode`
pub fn jpx_decode() -> (b: Vec<u8>) ensures b@ == name_jpx_decode() {
    let b = vec![74u8, 80, 88, 68, 101, 99, 111, 100, 101];
    assert(b@ =~= name_jpx_decode());
    b
}

/// `FlateDecode`
pub fn flate_decode() -> (b: Vec<u8>) ensures b@ == name_flate_decode() {
    let b = vec![70u8, 108, 97, 116, 101, 68, 101, 99, 111, 100, 101];
    assert(b@ =~= name_flate_decode());
    b
}

/// `SMask`
pub fn smask() -> (b: Vec<u8>) ensures b@ == key_smask() {
    let b = vec![83u8, 77, 97, 115, 107];
    assert(b@ =~= key_smask());
    b
}

/// `Width`
pub fn width() -> (b: Vec<u8>) ensures b@ == key_width() {
    let b = vec![87u8, 105, 100, 116, 104];
    assert(b@ =~= key_width());
    b
}

/// `Height`
pub fn height() -> (b: Vec<u8>) ensures b@ == key_height() {
    let b = vec![72u8, 101, 105, 103, 104, 116];
    assert(b@ =~= key_height());
    b
}

/// `ColorSpace`
pub fn color_space() -> (b: Vec<u8>) ensures b@ == key_color_space() {
    let b = vec![67u8, 111, 108, 111, 114, 83, 112, 97, 99, 101];
    assert(b@ =~= key_color_space());
    b
}

/// `DeviceGray`
pub fn device_gray() -> (b: Vec<u8>) ensures b@ == name_device_gray() {
    let b = vec![68u8, 101, 118, 105, 99, 101, 71, 114, 97, 121];
    assert(b@ =~= name_device_gray());
    b
}

/// `DeviceRGB`
pub fn device_rgb() -> (b: Vec<u8>) ensures b@ == name_device_rgb() {
    let b = vec![68u8, 101, 118, 105, 99, 101, 82, 71, 66];
    assert(b@ =~= name_device_rgb());
    b
}

/// Whether two byte strings are equal.
pub fn bytes_equal(a: &[u8], b: &[u8]) -> (res: bool)
    ensures
        res == (a@ == b@),
{
    if a.len() != b.len() {
        return false;
    }
    let mut i: usize = 0;
    while i < a.len()
        invariant
            a.len() == b.len(),
            i <= a.len(),
            forall|j: int| 0 <= j < i ==> a@[j] == b@[j],
        decreases a.len() - i,
    {
        if a[i] != b[i] {
            return false;
        }
        i = i + 1;
    }
    assert(a@ =~= b@);
    true
}

} // verus!
