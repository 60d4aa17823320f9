//! Parse a SeaweedFS fid into `(volume_id, needle_id, cookie)`.
//!
//! SeaweedFS fids use:
//!
//! ```text
//! <volume_id>,<needle_id_hex><cookie_hex>[_<delta>]
//! ```
//!
//! This is a thin typed wrapper over the canonical [`FileId`] parser, so that RDMA accepts
//! exactly the same fid grammar as the regular volume APIs.

use vstd::prelude::*;
use vstd::string::StringExecFns;

use crate::storage::file_id;
use crate::storage::file_id::{find_separator, FileId};
use crate::text;
use crate::text::chars_of;

verus! {

/// Why a text is no fid.
#[derive(Debug, PartialEq, Eq)]
pub enum ParseFidError {
    /// The text is empty.
    Empty,
    /// The text holds neither a comma nor a slash.
    MissingSeparator,
    /// Nothing stands before the separator.
    EmptyVolume,
    /// Nothing stands after the separator.
    EmptyKey,
    /// The halves are there but make no file id; in words, why.
    InvalidFileId(String),
}

/// What a text comes to when it is read as a fid.
pub enum FidOutcome {
    Parsed { volume_id: u32, needle_id: u64, cookie: u32 },
    Empty,
    MissingSeparator,
    EmptyVolume,
    EmptyKey,
    Invalid(file_id::FileIdFault),
}

/// What the text `s` comes to when it is read as a fid.
pub open spec fn fid_outcome(s: Seq<char>) -> FidOutcome {
    if s.len() == 0 {
        FidOutcome::Empty
    } else {
        match file_id::separator(s) {
            None => FidOutcome::MissingSeparator,
            Some(i) => if i == 0 {
                FidOutcome::EmptyVolume
            } else if i + 1 == s.len() {
                FidOutcome::EmptyKey
            } else {
                match file_id::file_id_of(s) {
                    Err(fault) => FidOutcome::Invalid(fault),
                    Ok(id) => FidOutcome::Parsed {
                        volume_id: id.volume_id.0,
                        needle_id: id.key.0,
                        cookie: id.cookie.0,
                    },
                }
            },
        }
    }
}

/// `result` is how `parse_fid` reports `outcome`.
pub open spec fn reports(
    result: Result<(u32, u64, u32), ParseFidError>,
    outcome: FidOutcome,
) -> bool {
    match outcome {
        FidOutcome::Parsed { volume_id, needle_id, cookie } => result == Ok::<_, ParseFidError>(
            (volume_id, needle_id, cookie),
        ),
        FidOutcome::Empty => result == Err::<(u32, u64, u32), _>(ParseFidError::Empty),
        FidOutcome::MissingSeparator => result == Err::<(u32, u64, u32), _>(
            ParseFidError::MissingSeparator,
        ),
        FidOutcome::EmptyVolume => result == Err::<(u32, u64, u32), _>(ParseFidError::EmptyVolume),
        FidOutcome::EmptyKey => result == Err::<(u32, u64, u32), _>(ParseFidError::EmptyKey),
        FidOutcome::Invalid(fault) => result matches Err(ParseFidError::InvalidFileId(message))
            && message@ == fault.text(),
    }
}

/// Reads `s` as a fid: its volume, its needle with any delta applied, and its cookie.
pub fn parse_fid(s: &str) -> (result: Result<(u32, u64, u32), ParseFidError>)
    ensures
        reports(result, fid_outcome(s@)),
{
    if s.is_empty() {
        return Err(ParseFidError::Empty);
    }
    let chars: Vec<char> = chars_of(s);
    match find_separator(chars.as_slice()) {
        None => Err(ParseFidError::MissingSeparator),
        Some(sep) => {
            if sep == 0 {
                return Err(ParseFidError::EmptyVolume);
            }
            let len: usize = chars.len();
            if sep + 1 == len {
                return Err(ParseFidError::EmptyKey);
            }
            match FileId::parse(s) {
                Err(message) => Err(ParseFidError::InvalidFileId(message)),
                Ok(id) => Ok((id.volume_id.0, id.key.0, id.cookie.0)),
            }
        },
    }
}

impl ParseFidError {
    /// The words for this error.
    pub open spec fn text(self) -> Seq<char> {
        match self {
            ParseFidError::Empty => "fid is empty"@,
            ParseFidError::MissingSeparator => "fid missing comma or slash separator"@,
            ParseFidError::EmptyVolume => "fid has empty volume_id half"@,
            ParseFidError::EmptyKey => "fid has empty key half"@,
            ParseFidError::InvalidFileId(message) => "invalid fid: "@ + message@,
        }
    }

    /// The words for this error.
    pub fn message(&self) -> (message: String)
        ensures
            message@ == self.text(),
    {
        match self {
            ParseFidError::Empty => "fid is empty".to_owned(),
            ParseFidError::MissingSeparator => "fid missing comma or slash separator".to_owned(),
            ParseFidError::EmptyVolume => "fid has empty volume_id half".to_owned(),
            ParseFidError::EmptyKey => "fid has empty key half".to_owned(),
            ParseFidError::InvalidFileId(detail) => {
                let mut message: String = "invalid fid: ".to_owned();
                message.append(detail.as_str());
                message
            },
        }
    }
}

/// The text of a fid made of these parts.
pub open spec fn fid_text(
    volume: Seq<char>,
    separator: char,
    key: Seq<char>,
    cookie: Seq<char>,
    delta: Option<Seq<char>>,
) -> Seq<char> {
    volume.push(separator) + key + cookie + match delta {
        None => Seq::<char>::empty(),
        Some(digits) => seq!['_'] + digits,
    }
}

/// These are parts of a fid: a decimal volume id, a comma or a slash, a hexadecimal needle id of
/// at most sixteen digits, a hexadecimal cookie of exactly eight, and perhaps a decimal delta.
pub open spec fn fid_parts(
    volume: Seq<char>,
    separator: char,
    key: Seq<char>,
    cookie: Seq<char>,
    delta: Option<Seq<char>>,
) -> bool {
    &&& text::numeral_within(volume, 10, u32::MAX as nat) is Some
    &&& separator == ',' || separator == '/'
    &&& text::is_numeral(key, 16)
    &&& key.len() <= 16
    &&& text::is_numeral(cookie, 16)
    &&& cookie.len() == 8
    &&& delta matches Some(digits) ==> text::numeral_within(digits, 10, u64::MAX as nat) is Some
}

/// Sixteen to the power of `n`.
spec fn hex_range(n: nat) -> nat
    decreases n,
{
    if n == 0 {
        1
    } else {
        hex_range((n - 1) as nat) * 16
    }
}

proof fn lemma_hex_is_bounded(s: Seq<char>)
    requires
        forall|i: int| 0 <= i < s.len() ==> text::digit_value(#[trigger] s[i]) < 16,
    ensures
        text::numeral_value(s, 16) < hex_range(s.len()),
    decreases s.len(),
{
    if s.len() > 0 {
        lemma_hex_is_bounded(s.drop_last());
    }
}

proof fn lemma_hex_range_grows(m: nat, n: nat)
    requires
        m <= n,
    ensures
        hex_range(m) <= hex_range(n),
    decreases n,
{
    if m < n {
        lemma_hex_range_grows(m, (n - 1) as nat);
    }
}

/// A hexadecimal numeral of at most sixteen digits fits a needle id, one of eight a cookie.
proof fn lemma_hex_fits(s: Seq<char>)
    requires
        text::is_numeral(s, 16),
        s.len() <= 16,
    ensures
        text::numeral_value(s, 16) <= u64::MAX,
        s.len() <= 8 ==> text::numeral_value(s, 16) <= u32::MAX,
{
    lemma_hex_is_bounded(s);
    reveal_with_fuel(hex_range, 17);
    lemma_hex_range_grows(s.len(), 16);
    if s.len() <= 8 {
        lemma_hex_range_grows(s.len(), 8);
    }
}

/// The digits of a key hash are split where they were joined.
proof fn lemma_key_hash_of_parts(key: Seq<char>, cookie: Seq<char>)
    requires
        text::is_numeral(key, 16),
        key.len() <= file_id::NEEDLE_ID_DIGITS,
        text::is_numeral(cookie, 16),
        cookie.len() == file_id::COOKIE_DIGITS,
    ensures
        file_id::plain_key_hash(key + cookie) == Ok::<_, file_id::FileIdFault>(
            (text::numeral_value(key, 16) as u64, text::numeral_value(cookie, 16) as u32),
        ),
{
    lemma_hex_fits(key);
    lemma_hex_fits(cookie);
    let h = key + cookie;
    assert(h.take(h.len() - 8) =~= key);
    assert(h.skip(h.len() - 8) =~= cookie);
}

/// Every text of the fid grammar is accepted, and stands for the numbers that its parts write: a
/// delta moves the needle id on and leaves the volume and the cookie alone.
pub proof fn law_fid_grammar_is_accepted(
    volume: Seq<char>,
    separator: char,
    key: Seq<char>,
    cookie: Seq<char>,
    delta: Option<Seq<char>>,
)
    requires
        fid_parts(volume, separator, key, cookie, delta),
    ensures
        ({
            let sum = text::numeral_value(key, 16) + match delta {
                None => 0,
                Some(digits) => text::numeral_value(digits, 10),
            };
            &&& fid_outcome(fid_text(volume, separator, key, cookie, delta)) matches FidOutcome::Parsed {
                volume_id: volume_number,
                needle_id,
                cookie: cookie_number,
            }
            &&& volume_number == text::numeral_value(volume, 10)
            &&& cookie_number == text::numeral_value(cookie, 16)
            &&& sum < 0x1_0000_0000_0000_0000 ==> needle_id == sum
            &&& sum >= 0x1_0000_0000_0000_0000 ==> needle_id == sum - 0x1_0000_0000_0000_0000
        }),
{
    let s = fid_text(volume, separator, key, cookie, delta);
    let i = volume.len() as int;
    let hash = key + cookie;
    let rest = s.skip(i + 1);
    assert(s.take(i) =~= volume);
    assert(s[i] == separator);
    assert forall|j: int| 0 <= j < s.len() && j != i implies s[j] != ',' && s[j] != '/' by {
        if j < i {
            assert(text::digit_value(volume[j]) < 10);
        } else if j <= i + key.len() {
            assert(s[j] == key[j - i - 1]);
            assert(text::digit_value(key[j - i - 1]) < 16);
        } else if j <= i + hash.len() {
            assert(s[j] == cookie[j - i - 1 - key.len()]);
            assert(text::digit_value(cookie[j - i - 1 - key.len()]) < 16);
        } else if j > i + 1 + hash.len() {
            let digits = delta->0;
            assert(s[j] == digits[j - i - 2 - hash.len()]);
            assert(text::digit_value(digits[j - i - 2 - hash.len()]) < 10);
        }
    }
    assert(s.contains(s[i]));
    assert(file_id::is_separator(s, i));
    file_id::lemma_separator_is_unique(s, i);
    lemma_key_hash_of_parts(key, cookie);
    lemma_hex_fits(key);
    lemma_hex_fits(cookie);
    assert forall|j: int| 0 <= j < hash.len() implies hash[j] != '_' by {
        if j < key.len() {
            assert(text::digit_value(key[j]) < 16);
        } else {
            assert(text::digit_value(cookie[j - key.len()]) < 16);
        }
    }
    match delta {
        None => {
            assert(rest =~= hash);
            assert(!rest.contains('_'));
        },
        Some(digits) => {
            let u = hash.len() as int;
            assert(rest =~= hash + (seq!['_'] + digits));
            assert(rest[u] == '_');
            assert(rest.contains(rest[u]));
            assert forall|j: int| u < j < rest.len() implies rest[j] != '_' by {
                assert(text::digit_value(digits[j - u - 1]) < 10);
            }
            assert(text::is_last(rest, '_', u));
            let k = choose|k: int| text::is_last(rest, '_', k);
            assert(k == u);
            assert(rest.skip(u + 1) =~= digits);
            assert(rest.take(u) =~= hash);
        },
    }
}

/// Nothing but texts of the fid grammar is accepted.
pub proof fn law_only_the_fid_grammar_is_accepted(s: Seq<char>)
    requires
        fid_outcome(s) is Parsed,
    ensures
        exists|
            volume: Seq<char>,
            separator: char,
            key: Seq<char>,
            cookie: Seq<char>,
            delta: Option<Seq<char>>,
        | #[trigger]
            fid_parts(volume, separator, key, cookie, delta) && s == fid_text(
                volume,
                separator,
                key,
                cookie,
                delta,
            ),
{
    let i = file_id::separator(s)->0;
    lemma_separator_is_there(s);
    let volume = s.take(i);
    let rest = s.skip(i + 1);
    let u = choose|u: int| text::is_last(rest, '_', u);
    let (hash, delta) = if rest.contains('_') {
        (rest.take(u), Some(rest.skip(u + 1)))
    } else {
        (rest, None::<Seq<char>>)
    };
    if rest.contains('_') {
        lemma_last_exists(rest, '_');
    }
    let split = hash.len() - file_id::COOKIE_DIGITS;
    let key = hash.take(split);
    let cookie = hash.skip(split);
    assert(fid_parts(volume, s[i], key, cookie, delta));
    assert(s =~= fid_text(volume, s[i], key, cookie, delta));
}

pub(crate) proof fn lemma_first_exists(s: Seq<char>, c: char)
    requires
        s.contains(c),
    ensures
        exists|i: int| text::is_first(s, c, i),
    decreases s.len(),
{
    let head = s.drop_last();
    if head.contains(c) {
        lemma_first_exists(head, c);
        let i = choose|i: int| text::is_first(head, c, i);
        assert(text::is_first(s, c, i)) by {
            assert forall|j: int| 0 <= j < i implies s[j] != c by {
                assert(head[j] != c);
            }
        }
    } else {
        let i = choose|i: int| 0 <= i < s.len() && s[i] == c;
        assert forall|j: int| 0 <= j < s.len() - 1 implies s[j] != c by {
            assert(head[j] == s[j]);
        }
        assert(text::is_first(s, c, i));
    }
}

proof fn lemma_separator_exists(s: Seq<char>)
    requires
        s.contains(',') || s.contains('/'),
    ensures
        exists|i: int| file_id::is_separator(s, i),
{
    if s.contains(',') {
        lemma_first_exists(s, ',');
        let i = choose|i: int| text::is_first(s, ',', i);
        assert(file_id::is_separator(s, i));
    } else {
        lemma_first_exists(s, '/');
        let i = choose|i: int| text::is_first(s, '/', i);
        assert(file_id::is_separator(s, i));
    }
}

/// The separator of a text is where it is said to be.
pub(crate) proof fn lemma_separator_is_there(s: Seq<char>)
    ensures
        file_id::separator(s) matches Some(i) ==> file_id::is_separator(s, i),
{
    if s.contains(',') || s.contains('/') {
        lemma_separator_exists(s);
    }
}

proof fn lemma_last_exists(s: Seq<char>, c: char)
    requires
        s.contains(c),
    ensures
        exists|i: int| text::is_last(s, c, i),
    decreases s.len(),
{
    if s.last() == c {
        assert(text::is_last(s, c, s.len() - 1));
    } else {
        let head = s.drop_last();
        let k = choose|k: int| 0 <= k < s.len() && s[k] == c;
        assert(head[k] == c);
        lemma_last_exists(head, c);
        let i = choose|i: int| text::is_last(head, c, i);
        assert forall|j: int| i < j < s.len() implies s[j] != c by {
            if j < head.len() {
                assert(head[j] != c);
            }
        }
        assert(text::is_last(s, c, i));
    }
}

/// Fids and file ids have one grammar: a text is read as a fid if and only if it is read as a file
/// id, and both say the same of it.
pub proof fn law_fids_are_file_ids(s: Seq<char>)
    ensures
        fid_outcome(s) is Parsed <==> file_id::file_id_of(s) is Ok,
        file_id::file_id_of(s) matches Ok(id) ==> fid_outcome(s) == (FidOutcome::Parsed {
            volume_id: id.volume_id.0,
            needle_id: id.key.0,
            cookie: id.cookie.0,
        }),
{
    if let Some(i) = file_id::separator(s) {
        if i + 1 == s.len() {
            assert(s.skip(i + 1) =~= Seq::<char>::empty());
        }
    }
}

/// A slash separates as well as a comma does.
pub proof fn law_slash_separates_like_comma(volume: Seq<char>, rest: Seq<char>)
    requires
        !volume.contains(',') && !volume.contains('/'),
        !rest.contains(','),
    ensures
        fid_outcome(volume.push(',') + rest) == fid_outcome(volume.push('/') + rest),
{
    let s = volume.push(',') + rest;
    let t = volume.push('/') + rest;
    let i = volume.len() as int;
    assert(s.take(i) =~= volume && t.take(i) =~= volume);
    assert(s.skip(i + 1) =~= rest && t.skip(i + 1) =~= rest);
    assert forall|j: int| 0 <= j < i implies s[j] != ',' && t[j] != '/' by {
        assert(volume.contains(volume[j]));
    }
    assert(s[i] == ',' && t[i] == '/');
    assert(s.contains(s[i]) && t.contains(t[i]));
    assert(!t.contains(',')) by {
        assert forall|j: int| 0 <= j < t.len() implies t[j] != ',' by {
            if j < i {
                assert(volume.contains(volume[j]));
            } else if j > i {
                assert(rest.contains(rest[j - i - 1]));
            }
        }
    }
    assert(file_id::is_separator(s, i));
    assert(file_id::is_separator(t, i));
    file_id::lemma_separator_is_unique(s, i);
    file_id::lemma_separator_is_unique(t, i);
}

} // verus!
