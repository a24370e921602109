use vstd::prelude::*;
use crate::text::same_text;

verus! {

/// Whether `data` begins with the JPEG signature `FF D8 FF`.
pub open spec fn is_jpeg(data: Seq<u8>) -> bool {
    &&& data.len() >= 3
    &&& data[0] == 0xFFu8
    &&& data[1] == 0xD8u8
    &&& data[2] == 0xFFu8
}

/// Whether `data` begins with the PNG signature `89 50 4E 47 0D 0A 1A 0A`.
pub open spec fn is_png(data: Seq<u8>) -> bool {
    &&& data.len() >= 8
    &&& data[0] == 0x89u8
    &&& data[1] == 0x50u8
    &&& data[2] == 0x4Eu8
    &&& data[3] == 0x47u8
    &&& data[4] == 0x0Du8
    &&& data[5] == 0x0Au8
    &&& data[6] == 0x1Au8
    &&& data[7] == 0x0Au8
}

/// Whether `data` begins with the GIF signature `47 49 46 38`.
pub open spec fn is_gif(data: Seq<u8>) -> bool {
    &&& data.len() >= 4
    &&& data[0] == 0x47u8
    &&& data[1] == 0x49u8
    &&& data[2] == 0x46u8
    &&& data[3] == 0x38u8
}

/// Whether `data` is framed as WebP: `RIFF` in bytes 0 to 3 and `WEBP` in
/// bytes 8 to 11. Bytes 4 to 7 hold a length and are not looked at.
pub open spec fn is_webp(data: Seq<u8>) -> bool {
    &&& data.len() >= 12
    &&& data[0] == 0x52u8
    &&& data[1] == 0x49u8
    &&& data[2] == 0x46u8
    &&& data[3] == 0x46u8
    &&& data[8] == 0x57u8
    &&& data[9] == 0x45u8
    &&& data[10] == 0x42u8
    &&& data[11] == 0x50u8
}

/// Whether the leading bytes of `data` carry the signature of the image
/// format that `extension` claims. An extension that names none of the four
/// formats matches nothing.
pub open spec fn magic_number_matches(data: Seq<u8>, extension: Seq<char>) -> bool {
    if extension == ".jpg"@ || extension == ".jpeg"@ {
        is_jpeg(data)
    } else if extension == ".png"@ {
        is_png(data)
    } else if extension == ".gif"@ {
        is_gif(data)
    } else if extension == ".webp"@ {
        is_webp(data)
    } else {
        false
    }
}

/// The five extensions that name a format are five different texts.
pub proof fn lemma_extensions_differ()
    ensures
        ".jpg"@ != ".jpeg"@,
        ".jpg"@ != ".png"@,
        ".jpg"@ != ".gif"@,
        ".jpg"@ != ".webp"@,
        ".jpeg"@ != ".png"@,
        ".jpeg"@ != ".gif"@,
        ".jpeg"@ != ".webp"@,
        ".png"@ != ".gif"@,
        ".png"@ != ".webp"@,
        ".gif"@ != ".webp"@,
{
    reveal_strlit(".jpg");
    reveal_strlit(".jpeg");
    reveal_strlit(".png");
    reveal_strlit(".gif");
    reveal_strlit(".webp");
    assert(".jpg"@.len() == 4 && ".png"@.len() == 4 && ".gif"@.len() == 4);
    assert(".jpeg"@.len() == 5 && ".webp"@.len() == 5);
    assert(".jpg"@[1] != ".png"@[1]);
    assert(".jpg"@[1] != ".gif"@[1]);
    assert(".png"@[1] != ".gif"@[1]);
    assert(".jpeg"@[1] != ".webp"@[1]);
}

/// Checks the content of an upload against the extension it came with, so
/// that a file cannot pass for an image by its name alone.
pub fn verify_image_magic_number(data: &[u8], extension: &str) -> (matches: bool)
    ensures
        matches == magic_number_matches(data@, extension@),
{
    if same_text(extension, ".jpg") || same_text(extension, ".jpeg") {
        data.len() >= 3 && data[0] == 0xFF && data[1] == 0xD8 && data[2] == 0xFF
    } else if same_text(extension, ".png") {
        data.len() >= 8 && data[0] == 0x89 && data[1] == 0x50 && data[2] == 0x4E
            && data[3] == 0x47 && data[4] == 0x0D && data[5] == 0x0A && data[6] == 0x1A
            && data[7] == 0x0A
    } else if same_text(extension, ".gif") {
        data.len() >= 4 && data[0] == 0x47 && data[1] == 0x49 && data[2] == 0x46
            && data[3] == 0x38
    } else if same_text(extension, ".webp") {
        data.len() >= 12 && data[0] == 0x52 && data[1] == 0x49 && data[2] == 0x46
            && data[3] == 0x46 && data[8] == 0x57 && data[9] == 0x45 && data[10] == 0x42
            && data[11] == 0x50
    } else {
        false
    }
}

} // verus!
