//! What a repair needs to know of a torrent.

use vstd::prelude::*;
use vstd::string::*;

use super::path::SafeRelativePath;
use crate::text::{byte_count, chars_of, decimal_of};

verus! {

/// The digits of base sixteen, in lower case.
pub open spec fn hex_digit(n: int) -> char {
    if n < 10 {
        (('0' as int) + n) as char
    } else {
        (('a' as int) + (n - 10)) as char
    }
}

/// The value of a digit of base sixteen, in either case.
pub open spec fn hex_value(c: char) -> Option<int> {
    if '0' <= c <= '9' {
        Some(c as int - '0' as int)
    } else if 'a' <= c <= 'f' {
        Some(c as int - 'a' as int + 10)
    } else if 'A' <= c <= 'F' {
        Some(c as int - 'A' as int + 10)
    } else {
        None
    }
}

/// Every character is a digit of base sixteen.
pub open spec fn all_hex(s: Seq<char>) -> bool {
    forall|i: int| 0 <= i < s.len() ==> hex_value(#[trigger] s[i]) is Some
}

/// Two digits for each byte, in lower case.
pub open spec fn hex(bytes: Seq<u8>) -> Seq<char> {
    Seq::new(
        2 * bytes.len(),
        |i: int| hex_digit(if i % 2 == 0 { bytes[i / 2] as int / 16 } else { bytes[i / 2] as int % 16 }),
    )
}

/// The bytes that pairs of digits stand for.
pub open spec fn unhex(s: Seq<char>) -> Seq<u8> {
    Seq::new(
        s.len() / 2,
        |i: int| (hex_value(s[2 * i])->0 * 16 + hex_value(s[2 * i + 1])->0) as u8,
    )
}

/// The value of one digit.
fn digit_value(c: char) -> (r: Option<u8>)
    ensures
        match r {
            Some(v) => hex_value(c) == Some(v as int) && v < 16,
            None => hex_value(c) is None,
        },
{
    let code: u32 = c as u32;
    if '0' <= c && c <= '9' {
        Some((code - 48) as u8)
    } else if 'a' <= c && c <= 'f' {
        Some((code - 97 + 10) as u8)
    } else if 'A' <= c && c <= 'F' {
        Some((code - 65 + 10) as u8)
    } else {
        None
    }
}

/// The digit of one value.
fn digit_char(v: u8) -> (r: char)
    requires
        v < 16,
    ensures
        r == hex_digit(v as int),
{
    if v < 10 {
        (48u8 + v) as char
    } else {
        (87u8 + v) as char
    }
}

/// BitTorrent v1 info-hash. Kept as bytes so the hex form has exactly one
/// spelling (lowercase) everywhere it is persisted, logged, or sent to a client.
#[derive(Clone, Copy, Debug, PartialEq, Eq, Hash, PartialOrd, Ord)]
pub struct InfoHash(pub [u8; 20]);

impl View for InfoHash {
    type V = Seq<u8>;

    open spec fn view(&self) -> Seq<u8> {
        self.0@
    }
}

#[derive(Clone, Debug, PartialEq, Eq)]
pub enum InfoHashError {
    /// info-hash must be 40 hex characters
    Length(usize),
    /// info-hash contains a non-hex character
    NotHex,
}

impl InfoHashError {
    /// The sentence shown for it.
    pub open spec fn sentence(self) -> Seq<char> {
        match self {
            InfoHashError::Length(n) => "info-hash must be 40 hex characters, got "@
                + crate::text::decimal(n as nat),
            InfoHashError::NotHex => "info-hash contains a non-hex character"@,
        }
    }

    pub fn message(&self) -> (r: String)
        ensures
            r@ == self.sentence(),
    {
        match self {
            InfoHashError::Length(n) => {
                let mut out = "info-hash must be 40 hex characters, got ".to_owned();
                out.append(decimal_of(*n as u128).as_str());
                out
            },
            InfoHashError::NotHex => "info-hash contains a non-hex character".to_owned(),
        }
    }
}

/// The error that a text which is no info-hash comes to.
pub open spec fn hash_rejected(text: Seq<char>) -> InfoHashError {
    if crate::text::byte_len(text) != 40 {
        InfoHashError::Length(crate::text::byte_len(text) as usize)
    } else {
        InfoHashError::NotHex
    }
}

/// The text is an info-hash.
pub open spec fn is_hash(text: Seq<char>) -> bool {
    text.len() == 40 && all_hex(text)
}

impl InfoHash {
    pub fn from_bytes(bytes: [u8; 20]) -> (r: InfoHash)
        ensures
            r@ == bytes@,
    {
        InfoHash(bytes)
    }

    /// Read forty digits of base sixteen, in either case.
    pub fn parse_hex(value: &str) -> (r: Result<InfoHash, InfoHashError>)
        ensures
            match r {
                Ok(hash) => is_hash(value@) && hash@ == unhex(value@),
                Err(error) => !is_hash(value@) && error == hash_rejected(value@),
            },
    {
        let len: usize = byte_count(value);
        proof {
            if all_hex(value@) {
                hex_is_ascii(value@);
            }
        }
        if len != 40 {
            return Err(InfoHashError::Length(len));
        }
        let chars = chars_of(value);
        if !only_hex(chars.as_slice()) {
            return Err(InfoHashError::NotHex);
        }
        let mut bytes: [u8; 20] = [0u8; 20];
        let mut i: usize = 0;
        while i < 20
            invariant
                i <= 20,
                chars@ == value@,
                chars@.len() == 40,
                all_hex(value@),
                forall|k: int| 0 <= k < i ==> bytes@[k] == #[trigger] unhex(value@)[k],
            decreases 20 - i,
        {
            assert(hex_value(value@[2 * i]) is Some);
            assert(hex_value(value@[2 * i + 1]) is Some);
            let high = digit_value(chars[2 * i]);
            let low = digit_value(chars[2 * i + 1]);
            let ghost before = bytes@;
            match (high, low) {
                (Some(h), Some(l)) => {
                    bytes[i] = h * 16 + l;
                    assert(bytes@ =~= before.update(i as int, (h * 16 + l) as u8));
                },
                _ => {},
            }
            i += 1;
        }
        assert(bytes@ =~= unhex(value@));
        Ok(InfoHash(bytes))
    }

    /// The one spelling: forty digits in lower case.
    pub fn to_hex(self) -> (r: String)
        ensures
            r@ == hex(self@),
    {
        let mut out = String::new();
        let mut i: usize = 0;
        while i < 20
            invariant
                i <= 20,
                out@ == hex(self@).take(2 * i),
            decreases 20 - i,
        {
            let b: u8 = self.0[i];
            out.push(digit_char(b / 16));
            out.push(digit_char(b % 16));
            assert(out@ =~= hex(self@).take(2 * (i + 1)));
            i += 1;
        }
        assert(hex(self@).take(40) =~= hex(self@));
        out
    }

    /// Whether two hashes are the same hash.
    pub fn is(&self, other: &InfoHash) -> (r: bool)
        ensures
            r == (self@ == other@),
    {
        same_twenty(&self.0, &other.0)
    }
}

/// Whether two digests agree in every byte.
pub(crate) fn same_twenty(a: &[u8; 20], b: &[u8; 20]) -> (r: bool)
    ensures
        r == (a@ == b@),
{
    let mut i: usize = 0;
    while i < 20
        invariant
            i <= 20,
            forall|k: int| 0 <= k < i ==> a@[k] == b@[k],
        decreases 20 - i,
    {
        if a[i] != b[i] {
            return false;
        }
        i += 1;
    }
    assert(a@ =~= b@);
    true
}

fn only_hex(chars: &[char]) -> (r: bool)
    ensures
        r == all_hex(chars@),
{
    let mut i: usize = 0;
    while i < chars.len()
        invariant
            i <= chars@.len(),
            forall|k: int| 0 <= k < i ==> hex_value(#[trigger] chars@[k]) is Some,
        decreases chars@.len() - i,
    {
        if digit_value(chars[i]).is_none() {
            assert(hex_value(chars@[i as int]) is None);
            return false;
        }
        i += 1;
    }
    true
}

/// Whether a text is an info-hash.
pub fn looks_like_a_hash(text: &str) -> (r: bool)
    ensures
        r == is_hash(text@),
{
    let chars = chars_of(text);
    chars.len() == 40 && only_hex(chars.as_slice())
}

/// A digit of base sixteen takes one byte.
proof fn hex_is_ascii(s: Seq<char>)
    requires
        all_hex(s),
    ensures
        crate::text::byte_len(s) == s.len(),
{
    assert forall|i: int| 0 <= i < s.len() implies 0 <= #[trigger] s[i] as nat <= 127 by {
        assert(hex_value(s[i]) is Some);
    }
    vstd::utf8::is_ascii_chars_encode_utf8(s);
}

/// Writing a hash down and reading it back gives the hash.
pub proof fn hex_round_trip(bytes: Seq<u8>)
    ensures
        all_hex(hex(bytes)),
        unhex(hex(bytes)) == bytes,
{
    let s = hex(bytes);
    assert forall|i: int| 0 <= i < s.len() implies hex_value(#[trigger] s[i]) == Some(
        if i % 2 == 0 {
            bytes[i / 2] as int / 16
        } else {
            bytes[i / 2] as int % 16
        },
    ) by {}
    assert forall|i: int| 0 <= i < bytes.len() implies unhex(s)[i] == bytes[i] by {
        assert(hex_value(s[2 * i]) == Some(bytes[i] as int / 16));
        assert(hex_value(s[2 * i + 1]) == Some(bytes[i] as int % 16));
    }
    assert(unhex(s) =~= bytes);
}

/// One entry from the torrent's file list, with its path already validated.
#[derive(Debug, PartialEq, Eq)]
pub struct TorrentFile {
    pub path: SafeRelativePath,
    pub length: u64,
}

impl Clone for TorrentFile {
    fn clone(&self) -> (r: TorrentFile)
        ensures
            r == *self,
    {
        TorrentFile { path: self.path.clone(), length: self.length }
    }
}

/// The SHA-1 of one piece, as recorded in `info.pieces`.
///
/// Comparing this against a hash computed from a candidate's bytes is what
/// lets a match reach `MatchConfidence::Exact`.
#[derive(Clone, Copy, Debug, PartialEq, Eq)]
pub struct PieceHash(pub [u8; 20]);

impl View for PieceHash {
    type V = Seq<u8>;

    open spec fn view(&self) -> Seq<u8> {
        self.0@
    }
}

impl PieceHash {
    pub fn from_bytes(bytes: [u8; 20]) -> (r: PieceHash)
        ensures
            r@ == bytes@,
    {
        PieceHash(bytes)
    }

    pub fn as_bytes(&self) -> (r: &[u8; 20])
        ensures
            r@ == self@,
    {
        &self.0
    }
}

/// The declared lengths of all files together.
pub open spec fn total_of(files: Seq<TorrentFile>) -> int
    decreases files.len(),
{
    if files.len() == 0 {
        0
    } else {
        total_of(files.drop_last()) + files.last().length
    }
}

/// Everything the repair workflow needs from a `.torrent`.
///
/// Deliberately not a faithful representation of the bencode document: we only
/// keep what drives a repair, so there is nothing extra to keep correct.
#[derive(Debug, PartialEq, Eq)]
pub struct TorrentMetadata {
    pub info_hash: InfoHash,
    /// The torrent's own name. For a multi-file torrent this is the directory
    /// every path is relative to; `files` already includes it.
    pub name: SafeRelativePath,
    pub piece_length: u64,
    pub files: Vec<TorrentFile>,
    /// One SHA-1 per piece, in order. Empty means "not available": piece
    /// verification degrades to size and name matching rather than treating
    /// that as an error.
    pub pieces: Vec<PieceHash>,
}

impl TorrentMetadata {
    /// The sum of all files' lengths.
    pub fn total_length(&self) -> (r: u64)
        requires
            total_of(self.files@) <= u64::MAX,
        ensures
            r == total_of(self.files@),
    {
        let mut total: u64 = 0;
        let mut i: usize = 0;
        while i < self.files.len()
            invariant
                i <= self.files@.len(),
                total == total_of(self.files@.take(i as int)),
                total_of(self.files@) <= u64::MAX,
            decreases self.files@.len() - i,
        {
            proof {
                assert(self.files@.take(i + 1).drop_last() =~= self.files@.take(i as int));
                total_grows(self.files@, i + 1);
            }
            total = total + self.files[i].length;
            i += 1;
        }
        assert(self.files@.take(i as int) =~= self.files@);
        total
    }

    pub fn file_count(&self) -> (r: usize)
        ensures
            r == self.files@.len(),
    {
        self.files.len()
    }
}

/// Fewer files are no longer.
pub proof fn total_grows(files: Seq<TorrentFile>, n: int)
    requires
        0 <= n <= files.len(),
    ensures
        0 <= total_of(files.take(n)) <= total_of(files),
    decreases files.len(),
{
    if n < files.len() {
        total_grows(files.drop_last(), n);
        assert(files.drop_last().take(n) =~= files.take(n));
    } else {
        assert(files.take(n) =~= files);
        if files.len() > 0 {
            total_grows(files.drop_last(), files.len() - 1);
        }
    }
}

/// A text is an info-hash exactly when it is forty of the digits and the letters
/// `a` to `f`, in either case; and upper case stands for the same bytes as
/// lower case.
pub proof fn what_an_info_hash_is(text: Seq<char>)
    ensures
        is_hash(text) <==> text.len() == 40 && forall|i: int|
            0 <= i < 40 ==> ('0' <= #[trigger] text[i] <= '9' || 'a' <= text[i] <= 'f' || 'A'
                <= text[i] <= 'F'),
        is_hash(text) ==> unhex(text).len() == 20 && unhex(crate::text::lowered(text)) == unhex(
            text,
        ),
{
    if is_hash(text) {
        assert forall|i: int| 0 <= i < 40 implies ('0' <= #[trigger] text[i] <= '9' || 'a'
            <= text[i] <= 'f' || 'A' <= text[i] <= 'F') by {
            assert(hex_value(text[i]) is Some);
        }
        let low = crate::text::lowered(text);
        assert forall|i: int| 0 <= i < 40 implies hex_value(#[trigger] low[i]) == hex_value(
            text[i],
        ) by {
            assert(hex_value(text[i]) is Some);
        }
        assert forall|i: int| 0 <= i < 20 implies unhex(low)[i] == unhex(text)[i] by {
            assert(hex_value(low[2 * i]) == hex_value(text[2 * i]));
            assert(hex_value(low[2 * i + 1]) == hex_value(text[2 * i + 1]));
        }
        assert(unhex(low) =~= unhex(text));
    }
}

/// A hash is written in forty lower case digits, and two hashes are written the
/// same only where they are the same.
pub proof fn a_hash_has_one_spelling(a: Seq<u8>, b: Seq<u8>)
    ensures
        hex(a).len() == 2 * a.len(),
        forall|i: int|
            0 <= i < hex(a).len() ==> ('0' <= #[trigger] hex(a)[i] <= '9' || 'a' <= hex(a)[i]
                <= 'f'),
        hex(a) == hex(b) ==> a == b,
{
    hex_round_trip(a);
    hex_round_trip(b);
}

/// A text of any other size than forty bytes is rejected for its size in bytes, and one
/// of forty bytes for its digits.
pub proof fn why_an_info_hash_is_rejected(text: Seq<char>)
    ensures
        vstd::utf8::encode_utf8(text).len() != 40 ==> hash_rejected(text) == InfoHashError::Length(
            vstd::utf8::encode_utf8(text).len() as usize,
        ),
        vstd::utf8::encode_utf8(text).len() == 40 ==> hash_rejected(text) == InfoHashError::NotHex,
{
}

/// The lengths of two lists of files add up, and one file counts with its own.
pub proof fn lengths_add_up(a: Seq<TorrentFile>, b: Seq<TorrentFile>)
    ensures
        total_of(a + b) == total_of(a) + total_of(b),
        forall|file: TorrentFile| #[trigger] total_of(seq![file]) == file.length,
    decreases b.len(),
{
    if b.len() == 0 {
        assert(a + b =~= a);
    } else {
        assert((a + b).drop_last() =~= a + b.drop_last());
        lengths_add_up(a, b.drop_last());
    }
    assert forall|file: TorrentFile| #[trigger] total_of(seq![file]) == file.length by {
        assert(seq![file].drop_last() =~= Seq::<TorrentFile>::empty());
        assert(total_of(Seq::<TorrentFile>::empty()) == 0);
    }
}

} // verus!
