//! Recognising the image formats that can be displayed inline, by the magic
//! bytes at the start of the data.
use vstd::prelude::*;

verus! {

/// An image format that can be displayed.
#[derive(Clone, Copy, Debug, PartialEq, Eq, Structural)]
pub enum MediaFormat {
    Gif,
    Png,
    Jpeg,
}

/// `data` starts with the bytes of `sig`.
pub open spec fn has_prefix(data: Seq<u8>, sig: Seq<u8>) -> bool {
    sig.len() <= data.len() && data.subrange(0, sig.len() as int) == sig
}

/// The signature of a GIF of the 1987 version.
pub open spec fn gif87a() -> Seq<u8> {
    seq![0x47u8, 0x49, 0x46, 0x38, 0x37, 0x61]
}

/// The signature of a GIF of the 1989 version.
pub open spec fn gif89a() -> Seq<u8> {
    seq![0x47u8, 0x49, 0x46, 0x38, 0x39, 0x61]
}

/// The signature of a PNG.
pub open spec fn png_signature() -> Seq<u8> {
    seq![0x89u8, 0x50, 0x4e, 0x47, 0x0d, 0x0a, 0x1a, 0x0a]
}

/// The signature of a JPEG.
pub open spec fn jpeg_signature() -> Seq<u8> {
    seq![0xffu8, 0xd8, 0xff]
}

/// The format that `data`'s leading bytes announce, if any.
pub open spec fn format_of(data: Seq<u8>) -> Option<MediaFormat> {
    if has_prefix(data, gif87a()) || has_prefix(data, gif89a()) {
        Some(MediaFormat::Gif)
    } else if has_prefix(data, png_signature()) {
        Some(MediaFormat::Png)
    } else if has_prefix(data, jpeg_signature()) {
        Some(MediaFormat::Jpeg)
    } else {
        None
    }
}

/// Whether `data` starts with the bytes of `sig`.
pub fn starts_with(data: &[u8], sig: &[u8]) -> (r: bool)
    ensures
        r == has_prefix(data@, sig@),
{
    if sig.len() > data.len() {
        return false;
    }
    let mut i: usize = 0;
    while i < sig.len()
        invariant
            i <= sig@.len(),
            sig@.len() <= data@.len(),
            forall|j: int| 0 <= j < i ==> data@[j] == sig@[j],
        decreases sig@.len() - i,
    {
        if data[i] != sig[i] {
            proof {
                assert(data@.subrange(0, sig@.len() as int)[i as int] != sig@[i as int]);
            }
            return false;
        }
        i = i + 1;
    }
    assert(data@.subrange(0, sig@.len() as int) =~= sig@);
    true
}

/// Classifies image data by its leading bytes: a GIF of either version, a
/// PNG or a JPEG; `None` for anything else, which cannot be displayed.
pub fn get_format(data: &[u8]) -> (r: Option<MediaFormat>)
    ensures
        r == format_of(data@),
{
    let gif87: [u8; 6] = [0x47, 0x49, 0x46, 0x38, 0x37, 0x61];
    let gif89: [u8; 6] = [0x47, 0x49, 0x46, 0x38, 0x39, 0x61];
    let png: [u8; 8] = [0x89, 0x50, 0x4e, 0x47, 0x0d, 0x0a, 0x1a, 0x0a];
    let jpeg: [u8; 3] = [0xff, 0xd8, 0xff];
    assert(gif87@ =~= gif87a());
    assert(gif89@ =~= gif89a());
    assert(png@ =~= png_signature());
    assert(jpeg@ =~= jpeg_signature());
    if starts_with(data, gif87.as_slice()) || starts_with(data, gif89.as_slice()) {
        Some(MediaFormat::Gif)
    } else if starts_with(data, png.as_slice()) {
        Some(MediaFormat::Png)
    } else if starts_with(data, jpeg.as_slice()) {
        Some(MediaFormat::Jpeg)
    } else {
        None
    }
}

/// Each signature selects its own format and no other; data that starts with
/// none of them has no format.
pub proof fn lemma_signature_classification(data: Seq<u8>)
    ensures
        has_prefix(data, gif87a()) ==> format_of(data) == Some(MediaFormat::Gif),
        has_prefix(data, gif89a()) ==> format_of(data) == Some(MediaFormat::Gif),
        has_prefix(data, png_signature()) ==> format_of(data) == Some(MediaFormat::Png),
        has_prefix(data, jpeg_signature()) ==> format_of(data) == Some(MediaFormat::Jpeg),
        !has_prefix(data, gif87a()) && !has_prefix(data, gif89a()) && !has_prefix(
            data,
            png_signature(),
        ) && !has_prefix(data, jpeg_signature()) ==> format_of(data).is_none(),
{
    if has_prefix(data, png_signature()) {
        assert(data[0] == 0x89u8);
        assert(!has_prefix(data, gif87a())) by {
            assert(data.subrange(0, 6)[0] == data[0]);
        }
        assert(!has_prefix(data, gif89a())) by {
            assert(data.subrange(0, 6)[0] == data[0]);
        }
    }
    if has_prefix(data, jpeg_signature()) {
        assert(data.subrange(0, 3)[0] == data[0]);
        assert(data[0] == 0xffu8);
        if has_prefix(data, gif87a()) || has_prefix(data, gif89a()) {
            assert(data.subrange(0, 6)[0] == data[0]);
        }
        if has_prefix(data, png_signature()) {
            assert(data.subrange(0, 8)[0] == data[0]);
        }
    }
}

} // verus!
