//! File ids: `<volume_id>,<needle_id_hex><cookie_hex>[_<delta>]`, a slash serving as separator
//! where there is no comma.

use vstd::prelude::*;

use crate::text;
use crate::text::{chars_of, find_char, parse_numeral, rfind_char};

verus! {

/// The number of a volume.
#[derive(Clone, Copy, Debug, PartialEq, Eq, Structural)]
pub struct VolumeId(pub u32);

/// The key of a needle within its volume.
#[derive(Clone, Copy, Debug, PartialEq, Eq, Structural)]
pub struct NeedleId(pub u64);

/// The number that guards a needle against guessed ids.
#[derive(Clone, Copy, Debug, PartialEq, Eq, Structural)]
pub struct Cookie(pub u32);

/// Hexadecimal digits of a cookie.
pub const COOKIE_DIGITS: usize = 8;

/// The most hexadecimal digits of a needle id.
pub const NEEDLE_ID_DIGITS: usize = 16;

/// A parsed file id.
#[derive(Clone, Copy, Debug, PartialEq, Eq, Structural)]
pub struct FileId {
    pub volume_id: VolumeId,
    pub key: NeedleId,
    pub cookie: Cookie,
}

/// What keeps a text from being a file id.
pub enum FileIdFault {
    /// Neither a comma nor a slash.
    Separator,
    /// The part before the separator is no decimal `u32`.
    Volume,
    /// The part after the last underscore is no decimal `u64`.
    Delta,
    /// No digit is left for the needle id before the cookie.
    KeyTooShort,
    /// More digits than a needle id and a cookie have.
    KeyTooLong,
    /// The needle id is not hexadecimal.
    Key,
    /// The cookie is not hexadecimal.
    Cookie,
}

impl FileIdFault {
    /// The words for this fault.
    pub open spec fn text(self) -> Seq<char> {
        match self {
            FileIdFault::Separator => "file id has no comma or slash"@,
            FileIdFault::Volume => "volume id is not a decimal number"@,
            FileIdFault::Delta => "delta is not a decimal number"@,
            FileIdFault::KeyTooShort => "key hash is too short"@,
            FileIdFault::KeyTooLong => "key hash is too long"@,
            FileIdFault::Key => "needle id is not hexadecimal"@,
            FileIdFault::Cookie => "cookie is not hexadecimal"@,
        }
    }

    /// The words for this fault.
    pub fn message(&self) -> (message: String)
        ensures
            message@ == self.text(),
    {
        match self {
            FileIdFault::Separator => "file id has no comma or slash".to_owned(),
            FileIdFault::Volume => "volume id is not a decimal number".to_owned(),
            FileIdFault::Delta => "delta is not a decimal number".to_owned(),
            FileIdFault::KeyTooShort => "key hash is too short".to_owned(),
            FileIdFault::KeyTooLong => "key hash is too long".to_owned(),
            FileIdFault::Key => "needle id is not hexadecimal".to_owned(),
            FileIdFault::Cookie => "cookie is not hexadecimal".to_owned(),
        }
    }
}

/// `i` is where the separator of `s` stands: the first comma or, where there is no comma, the
/// first slash.
pub open spec fn is_separator(s: Seq<char>, i: int) -> bool {
    if s.contains(',') {
        text::is_first(s, ',', i)
    } else {
        text::is_first(s, '/', i)
    }
}

/// Where the separator of `s` stands, if it has one.
pub open spec fn separator(s: Seq<char>) -> Option<int> {
    if s.contains(',') || s.contains('/') {
        Some(choose|i: int| is_separator(s, i))
    } else {
        None
    }
}

/// A text has one separator at most.
pub proof fn lemma_separator_is_unique(s: Seq<char>, i: int)
    requires
        is_separator(s, i),
    ensures
        separator(s) == Some(i),
{
    let j = choose|j: int| is_separator(s, j);
    assert(is_separator(s, j));
    assert(s.contains(s[i]));
    assert(i == j);
}

/// Finds the separator of a file id.
pub fn find_separator(s: &[char]) -> (at: Option<usize>)
    ensures
        match at {
            Some(i) => separator(s@) == Some(i as int) && is_separator(s@, i as int),
            None => separator(s@) is None,
        },
{
    match find_char(s, ',') {
        Some(i) => {
            proof {
                assert(s@.contains(s@[i as int]));
                lemma_separator_is_unique(s@, i as int);
            }
            Some(i)
        },
        None => match find_char(s, '/') {
            Some(i) => {
                proof {
                    lemma_separator_is_unique(s@, i as int);
                }
                Some(i)
            },
            None => None,
        },
    }
}

/// What the hexadecimal digits `h` of a key hash stand for: the cookie in the last eight, the
/// needle id in those before.
pub open spec fn plain_key_hash(h: Seq<char>) -> Result<(u64, u32), FileIdFault> {
    let split = h.len() - COOKIE_DIGITS;
    if h.len() <= COOKIE_DIGITS {
        Err(FileIdFault::KeyTooShort)
    } else if h.len() > NEEDLE_ID_DIGITS + COOKIE_DIGITS {
        Err(FileIdFault::KeyTooLong)
    } else {
        match text::numeral_within(h.take(split), 16, u64::MAX as nat) {
            None => Err(FileIdFault::Key),
            Some(key) => match text::numeral_within(h.skip(split), 16, u32::MAX as nat) {
                None => Err(FileIdFault::Cookie),
                Some(cookie) => Ok((key as u64, cookie as u32)),
            },
        }
    }
}

/// The key `key` moved on by `delta`, modulo the range of needle ids.
pub open spec fn moved_key(key: u64, delta: nat) -> u64 {
    ((key + delta) % 0x1_0000_0000_0000_0000) as u64
}

/// What the part after the separator stands for: a key hash, and after its last underscore the
/// delta by which the key moves on.
pub open spec fn key_hash(k: Seq<char>) -> Result<(u64, u32), FileIdFault> {
    if k.contains('_') {
        let i = choose|i: int| text::is_last(k, '_', i);
        match text::numeral_within(k.skip(i + 1), 10, u64::MAX as nat) {
            None => Err(FileIdFault::Delta),
            Some(delta) => match plain_key_hash(k.take(i)) {
                Err(fault) => Err(fault),
                Ok((key, cookie)) => Ok((moved_key(key, delta), cookie)),
            },
        }
    } else {
        plain_key_hash(k)
    }
}

fn parse_plain_key_hash(h: &[char]) -> (parsed: Result<(u64, u32), FileIdFault>)
    ensures
        parsed == plain_key_hash(h@),
{
    let len: usize = h.len();
    if len <= COOKIE_DIGITS {
        return Err(FileIdFault::KeyTooShort);
    }
    if len > NEEDLE_ID_DIGITS + COOKIE_DIGITS {
        return Err(FileIdFault::KeyTooLong);
    }
    let split: usize = len - COOKIE_DIGITS;
    let key_digits: &[char] = vstd::slice::slice_subrange(h, 0, split);
    let cookie_digits: &[char] = vstd::slice::slice_subrange(h, split, len);
    assert(key_digits@ =~= h@.take(split as int));
    assert(cookie_digits@ =~= h@.skip(split as int));
    match parse_numeral(key_digits, 16, u64::MAX) {
        None => Err(FileIdFault::Key),
        Some(key) => match parse_numeral(cookie_digits, 16, u32::MAX as u64) {
            None => Err(FileIdFault::Cookie),
            Some(cookie) => Ok((key, cookie as u32)),
        },
    }
}

fn parse_key_hash(k: &[char]) -> (parsed: Result<(u64, u32), FileIdFault>)
    ensures
        parsed == key_hash(k@),
{
    match rfind_char(k, '_') {
        None => parse_plain_key_hash(k),
        Some(i) => {
            proof {
                assert(k@.contains(k@[i as int]));
                let j = choose|j: int| text::is_last(k@, '_', j);
                assert(text::is_last(k@, '_', j));
                assert(i == j);
            }
            let len: usize = k.len();
            let delta_digits: &[char] = vstd::slice::slice_subrange(k, i + 1, len);
            let hash: &[char] = vstd::slice::slice_subrange(k, 0, i);
            assert(delta_digits@ =~= k@.skip(i + 1));
            assert(hash@ =~= k@.take(i as int));
            match parse_numeral(delta_digits, 10, u64::MAX) {
                None => Err(FileIdFault::Delta),
                Some(delta) => match parse_plain_key_hash(hash) {
                    Err(fault) => Err(fault),
                    Ok((key, cookie)) => Ok((key.wrapping_add(delta), cookie)),
                },
            }
        },
    }
}

/// What the text `s` stands for as a file id.
pub open spec fn file_id_of(s: Seq<char>) -> Result<FileId, FileIdFault> {
    match separator(s) {
        None => Err(FileIdFault::Separator),
        Some(i) => match text::numeral_within(s.take(i), 10, u32::MAX as nat) {
            None => Err(FileIdFault::Volume),
            Some(volume) => match key_hash(s.skip(i + 1)) {
                Err(fault) => Err(fault),
                Ok((key, cookie)) => Ok(
                    FileId {
                        volume_id: VolumeId(volume as u32),
                        key: NeedleId(key),
                        cookie: Cookie(cookie),
                    },
                ),
            },
        },
    }
}

fn parse_chars(s: &[char]) -> (parsed: Result<FileId, FileIdFault>)
    ensures
        parsed == file_id_of(s@),
{
    match find_separator(s) {
        None => Err(FileIdFault::Separator),
        Some(i) => {
            let volume_digits: &[char] = vstd::slice::slice_subrange(s, 0, i);
            let len: usize = s.len();
            let rest: &[char] = vstd::slice::slice_subrange(s, i + 1, len);
            assert(volume_digits@ =~= s@.take(i as int));
            assert(rest@ =~= s@.skip(i + 1));
            match parse_numeral(volume_digits, 10, u32::MAX as u64) {
                None => Err(FileIdFault::Volume),
                Some(volume) => match parse_key_hash(rest) {
                    Err(fault) => Err(fault),
                    Ok((key, cookie)) => Ok(
                        FileId {
                            volume_id: VolumeId(volume as u32),
                            key: NeedleId(key),
                            cookie: Cookie(cookie),
                        },
                    ),
                },
            }
        },
    }
}

impl FileId {
    /// Reads a file id, or says in words what keeps `s` from being one.
    pub fn parse(s: &str) -> (parsed: Result<FileId, String>)
        ensures
            match parsed {
                Ok(id) => file_id_of(s@) == Ok::<FileId, FileIdFault>(id),
                Err(message) => file_id_of(s@) matches Err(fault) && message@ == fault.text(),
            },
    {
        let chars: Vec<char> = chars_of(s);
        match parse_chars(chars.as_slice()) {
            Ok(id) => Ok(id),
            Err(fault) => Err(fault.message()),
        }
    }
}

} // verus!
