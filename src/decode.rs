//! Choosing a text encoding from a byte-order mark and decoding file bytes.

use vstd::prelude::*;
use encoding_rs::{UTF_16BE, UTF_16LE, UTF_8, WINDOWS_1252};

verus! {

/// The encodings a file can be decoded with.
#[derive(Clone, Copy, Debug, PartialEq, Eq, Structural)]
pub enum TextEncoding {
    Utf8,
    Utf16Le,
    Utf16Be,
    /// The single-byte Western-European fallback: every byte decodes.
    Windows1252,
}

/// The largest input the decoder takes: keeps the output buffer's size
/// computation inside `usize`.
pub const MAX_DECODE_LEN: usize = usize::MAX / 8;

pub open spec fn has_prefix(b: Seq<u8>, prefix: Seq<u8>) -> bool {
    prefix.len() <= b.len() && b.take(prefix.len() as int) == prefix
}

/// The encoding announced by a byte-order mark at the start of `b`, with the
/// mark's length.
pub open spec fn bom_of(b: Seq<u8>) -> Option<(TextEncoding, nat)> {
    if has_prefix(b, seq![0xEFu8, 0xBBu8, 0xBFu8]) {
        Some((TextEncoding::Utf8, 3))
    } else if has_prefix(b, seq![0xFFu8, 0xFEu8]) {
        Some((TextEncoding::Utf16Le, 2))
    } else if has_prefix(b, seq![0xFEu8, 0xFFu8]) {
        Some((TextEncoding::Utf16Be, 2))
    } else {
        None
    }
}

/// The text that `bytes` decode to under `encoding`, malformed sequences
/// replaced by U+FFFD.
pub uninterp spec fn decoded(encoding: TextEncoding, bytes: Seq<u8>) -> Seq<char>;

/// The text of a file: decoded with the encoding its byte-order mark names
/// (the mark itself dropped), or with the single-byte fallback when it has none.
pub open spec fn file_text(b: Seq<u8>) -> Seq<char> {
    match bom_of(b) {
        Some((e, n)) => decoded(e, b.skip(n as int)),
        None => decoded(TextEncoding::Windows1252, b),
    }
}

/// A file that starts with a byte-order mark is decoded with the encoding
/// the mark names, from just after the mark; any other file is decoded with
/// the single-byte fallback, from its first byte.
pub proof fn lemma_bom_selects_encoding(b: Seq<u8>)
    ensures
        b.len() >= 3 && b[0] == 0xEF && b[1] == 0xBB && b[2] == 0xBF ==> file_text(b) == decoded(
            TextEncoding::Utf8,
            b.skip(3),
        ),
        b.len() >= 2 && b[0] == 0xFF && b[1] == 0xFE ==> file_text(b) == decoded(
            TextEncoding::Utf16Le,
            b.skip(2),
        ),
        b.len() >= 2 && b[0] == 0xFE && b[1] == 0xFF ==> file_text(b) == decoded(
            TextEncoding::Utf16Be,
            b.skip(2),
        ),
        bom_of(b) is None ==> file_text(b) == decoded(TextEncoding::Windows1252, b),
{
    if b.len() >= 3 && b[0] == 0xEF && b[1] == 0xBB && b[2] == 0xBF {
        assert(b.take(3) =~= seq![0xEFu8, 0xBBu8, 0xBFu8]);
    }
    if b.len() >= 2 && b[0] == 0xFF && b[1] == 0xFE {
        assert(b.take(2) =~= seq![0xFFu8, 0xFEu8]);
        if has_prefix(b, seq![0xEFu8, 0xBBu8, 0xBFu8]) {
            assert(b.take(3)[0] == b[0]);
        }
    }
    if b.len() >= 2 && b[0] == 0xFE && b[1] == 0xFF {
        assert(b.take(2) =~= seq![0xFEu8, 0xFFu8]);
        if has_prefix(b, seq![0xEFu8, 0xBBu8, 0xBFu8]) {
            assert(b.take(3)[0] == b[0]);
        }
        if has_prefix(b, seq![0xFFu8, 0xFEu8]) {
            assert(b.take(2)[0] == b[0]);
        }
    }
}

/// Looks for a byte-order mark at the start of `buffer`.
pub fn detect_bom(buffer: &[u8]) -> (r: Option<(TextEncoding, usize)>)
    ensures
        match r {
            Some((e, n)) => bom_of(buffer@) == Some((e, n as nat)),
            None => bom_of(buffer@) is None,
        },
{
    let len = buffer.len();
    if len >= 3 && buffer[0] == 0xEF && buffer[1] == 0xBB && buffer[2] == 0xBF {
        assert(buffer@.take(3) =~= seq![0xEFu8, 0xBBu8, 0xBFu8]);
        Some((TextEncoding::Utf8, 3))
    } else if len >= 2 && buffer[0] == 0xFF && buffer[1] == 0xFE {
        assert(!has_prefix(buffer@, seq![0xEFu8, 0xBBu8, 0xBFu8]));
        assert(buffer@.take(2) =~= seq![0xFFu8, 0xFEu8]);
        Some((TextEncoding::Utf16Le, 2))
    } else if len >= 2 && buffer[0] == 0xFE && buffer[1] == 0xFF {
        assert(!has_prefix(buffer@, seq![0xEFu8, 0xBBu8, 0xBFu8]));
        assert(!has_prefix(buffer@, seq![0xFFu8, 0xFEu8]));
        assert(buffer@.take(2) =~= seq![0xFEu8, 0xFFu8]);
        Some((TextEncoding::Utf16Be, 2))
    } else {
        assert(!has_prefix(buffer@, seq![0xEFu8, 0xBBu8, 0xBFu8])) by {
            if has_prefix(buffer@, seq![0xEFu8, 0xBBu8, 0xBFu8]) {
                assert(buffer@.take(3)[0] == buffer@[0]);
                assert(buffer@.take(3)[1] == buffer@[1]);
                assert(buffer@.take(3)[2] == buffer@[2]);
            }
        }
        assert(!has_prefix(buffer@, seq![0xFFu8, 0xFEu8])) by {
            if has_prefix(buffer@, seq![0xFFu8, 0xFEu8]) {
                assert(buffer@.take(2)[0] == buffer@[0]);
                assert(buffer@.take(2)[1] == buffer@[1]);
            }
        }
        assert(!has_prefix(buffer@, seq![0xFEu8, 0xFFu8])) by {
            if has_prefix(buffer@, seq![0xFEu8, 0xFFu8]) {
                assert(buffer@.take(2)[0] == buffer@[0]);
                assert(buffer@.take(2)[1] == buffer@[1]);
            }
        }
        None
    }
}

/// Relies on encoding_rs's `Encoding::decode_without_bom_handling`: its text
/// depends on the encoding and the bytes alone. It panics only when its buffer
/// size computation overflows, which the length bound rules out.
#[verifier::external_body]
fn decode_with(encoding: TextEncoding, bytes: &[u8]) -> (r: Vec<char>)
    requires
        bytes@.len() <= MAX_DECODE_LEN,
    ensures
        r@ == decoded(encoding, bytes@),
{
    let e = match encoding {
        TextEncoding::Utf8 => UTF_8,
        TextEncoding::Utf16Le => UTF_16LE,
        TextEncoding::Utf16Be => UTF_16BE,
        TextEncoding::Windows1252 => WINDOWS_1252,
    };
    e.decode_without_bom_handling(bytes).0.chars().collect()
}

/// Decodes a whole file's bytes. This never fails: without a byte-order mark
/// the single-byte fallback accepts any byte.
pub fn decode_text(buffer: &[u8]) -> (text: Vec<char>)
    requires
        buffer@.len() <= MAX_DECODE_LEN,
    ensures
        text@ == file_text(buffer@),
{
    match detect_bom(buffer) {
        Some((encoding, bom_len)) => {
            let (_, rest) = buffer.split_at(bom_len);
            assert(rest@ =~= buffer@.skip(bom_len as int));
            decode_with(encoding, rest)
        },
        None => decode_with(TextEncoding::Windows1252, buffer),
    }
}

} // verus!
