//! UTF-8 validity, a guessed charset for other text, and binary detection.

use vstd::prelude::*;
use crate::text::owned;

verus! {

/// The result of the UTF-8 check.
#[derive(Debug, Clone, PartialEq, Eq)]
pub struct EncodingResult {
    pub valid: bool,
    pub has_bom: bool,
    pub detected_charset: String,
    pub confidence: i32,
}

/// The length of the UTF-8 sequence a lead byte announces (0 for a byte that cannot lead).
pub open spec fn seq_size(b: u8) -> int {
    if b & 0xE0 == 0xC0 {
        2
    } else if b & 0xF0 == 0xE0 {
        3
    } else if b & 0xF8 == 0xF0 {
        4
    } else {
        0
    }
}

/// Whether the bytes from `i` on are well-formed UTF-8 in structure: each byte below 0x80
/// stands alone, each lead byte is followed by as many continuation bytes (`10xxxxxx`) as it
/// announces. Overlong forms and surrogates are not checked.
pub open spec fn utf8_structure(c: Seq<u8>, i: int) -> bool
    decreases c.len() - i,
{
    if i < 0 || i >= c.len() {
        true
    } else if c[i] < 0x80 {
        utf8_structure(c, i + 1)
    } else {
        let size = seq_size(c[i]);
        size > 0 && i + size <= c.len() && (forall|j: int| 1 <= j < size ==> #[trigger] c[i + j] & 0xC0 == 0x80)
            && utf8_structure(c, i + size)
    }
}

/// Whether the bytes are structurally valid UTF-8 (see `utf8_structure`).
pub fn is_valid_utf8(content: &[u8]) -> (r: bool)
    ensures
        r == utf8_structure(content@, 0),
{
    let n = content.len();
    let mut i: usize = 0;
    while i < n
        invariant
            i <= n,
            n == content@.len(),
            utf8_structure(content@, i as int) == utf8_structure(content@, 0),
        decreases n - i,
    {
        if content[i] < 0x80 {
            i += 1;
            continue;
        }
        let b = content[i];
        let size: usize = if b & 0xE0 == 0xC0 {
            2
        } else if b & 0xF0 == 0xE0 {
            3
        } else if b & 0xF8 == 0xF0 {
            4
        } else {
            return false;
        };
        assert(size as int == seq_size(b));
        if size > n - i {
            return false;
        }
        let mut j: usize = 1;
        while j < size
            invariant
                1 <= j <= size <= 4,
                i + size <= n,
                n == content@.len(),
                forall|k: int| 1 <= k < j ==> #[trigger] content@[i + k] & 0xC0 == 0x80,
                utf8_structure(content@, i as int) == utf8_structure(content@, 0),
                size as int == seq_size(content@[i as int]),
                content@[i as int] >= 0x80,
                i < n,
            decreases size - j,
        {
            if content[i + j] & 0xC0 != 0x80 {
                assert(!(content@[i + j as int] & 0xC0 == 0x80));
                return false;
            }
            j += 1;
        }
        i += size;
    }
    true
}

/// The charset name `chardetng` guesses for bytes that are not UTF-8.
pub uninterp spec fn guessed_charset(content: Seq<u8>) -> Seq<char>;

/// `chardetng::EncodingDetector` fed the whole content (ISO-2022-JP allowed, UTF-8 not),
/// then asked for its guess; gives the encoding's name. The result is a fixed function of the
/// bytes, named `guessed_charset`.
#[verifier::external_body]
fn guess_charset(content: &[u8]) -> (r: String)
    ensures
        r@ == guessed_charset(content@),
{
    let mut det = chardetng::EncodingDetector::new(chardetng::Iso2022JpDetection::Allow);
    det.feed(content, true);
    det.guess(None, chardetng::Utf8Detection::Deny).name().to_string()
}

/// The check of a content: valid (`UTF-8`, confidence 100) when empty or structurally UTF-8,
/// else invalid with the guessed charset (confidence 0); a BOM is reported either way, except
/// for empty content.
pub open spec fn check_utf8_spec(content: Seq<u8>) -> (bool, bool, Seq<char>, i32) {
    let bom = content.len() >= 3 && content[0] == 0xEF && content[1] == 0xBB && content[2] == 0xBF;
    if content.len() == 0 {
        (true, false, "UTF-8"@, 100)
    } else if utf8_structure(content, 0) {
        (true, bom, "UTF-8"@, 100)
    } else {
        (false, bom, guessed_charset(content), 0)
    }
}

/// Checks that the content is UTF-8 (see `check_utf8_spec`).
pub fn check_utf8(content: &[u8]) -> (r: EncodingResult)
    ensures
        (r.valid, r.has_bom, r.detected_charset@, r.confidence) == check_utf8_spec(content@),
{
    let has_bom = content.len() >= 3 && content[0] == 0xEF && content[1] == 0xBB && content[2] == 0xBF;
    if content.len() == 0 {
        return EncodingResult { valid: true, has_bom: false, detected_charset: owned("UTF-8"), confidence: 100 };
    }
    if is_valid_utf8(content) {
        return EncodingResult { valid: true, has_bom, detected_charset: owned("UTF-8"), confidence: 100 };
    }
    EncodingResult { valid: false, has_bom, detected_charset: guess_charset(content), confidence: 0 }
}

/// Whether `infer` recognises the bytes' format by its magic bytes.
pub uninterp spec fn known_file_type(content: Seq<u8>) -> bool;

/// `infer::get`: whether some known file type (executables, images, archives, documents)
/// matches the leading bytes. The result is a fixed function of the bytes, named
/// `known_file_type`.
#[verifier::external_body]
fn has_known_type(content: &[u8]) -> (r: bool)
    ensures
        r == known_file_type(content@),
{
    infer::get(content).is_some()
}

/// Binary content: not empty, and of a known file type or holding a NUL byte.
pub open spec fn binary_spec(content: Seq<u8>) -> bool {
    content.len() > 0 && (known_file_type(content) || content.contains(0u8))
}

/// Whether the content is binary (see `binary_spec`).
pub fn is_binary(content: &[u8]) -> (r: bool)
    ensures
        r == binary_spec(content@),
{
    if content.len() == 0 {
        return false;
    }
    if has_known_type(content) {
        return true;
    }
    let mut i: usize = 0;
    while i < content.len()
        invariant
            i <= content@.len(),
            forall|k: int| 0 <= k < i ==> content@[k] != 0u8,
        decreases content.len() - i,
    {
        if content[i] == 0 {
            assert(content@[i as int] == 0u8);
            return true;
        }
        i += 1;
    }
    false
}

} // verus!
