//! Fids and file ids.

use vstd::prelude::*;

use crate::laws::text;
use crate::rdma::parse_fid;
use crate::rdma::ParseFidError;
use crate::storage::file_id;
use crate::storage::file_id::{find_separator, FileId};

verus! {

/// `i` is the place of the comma or, in a text without a comma, of the slash that splits `s`: the
/// first of its kind.
pub open spec fn splits(s: Seq<char>, i: int) -> bool {
    &&& 0 <= i < s.len()
    &&& ({
        ||| s[i] as int == 44 && forall|j: int| 0 <= j < i ==> (#[trigger] s[j]) as int != 44
        ||| s[i] as int == 47 && (forall|j: int| 0 <= j < i ==> (#[trigger] s[j]) as int != 47)
            && forall|j: int| 0 <= j < s.len() ==> (#[trigger] s[j]) as int != 44
    })
}

proof fn lemma_separator(s: Seq<char>)
    ensures
        match file_id::separator(s) {
            Some(i) => splits(s, i),
            None => forall|j: int|
                0 <= j < s.len() ==> (#[trigger] s[j]) as int != 44 && s[j] as int != 47,
        },
{
    parse_fid::lemma_separator_is_there(s);
    match file_id::separator(s) {
        Some(i) => {
            assert(file_id::is_separator(s, i));
            if !s.contains(',') {
                assert forall|j: int| 0 <= j < s.len() implies (#[trigger] s[j]) as int != 44 by {
                    assert(s.contains(s[j]));
                }
            }
        },
        None => {
            assert forall|j: int| 0 <= j < s.len() implies (#[trigger] s[j]) as int != 44
                && s[j] as int != 47 by {
                assert(s.contains(s[j]));
            }
        },
    }
}

proof fn lemma_splits_once(s: Seq<char>, i: int, j: int)
    requires
        splits(s, i),
        splits(s, j),
    ensures
        i == j,
{
}

/// The separator of a text is found where it splits it, if anything does.
pub proof fn law_separator_is_found(s: &[char], at: Option<usize>)
    requires
        call_ensures(find_separator, (s,), at),
    ensures
        match at {
            Some(i) => splits(s@, i as int),
            None => forall|j: int|
                0 <= j < s@.len() ==> (#[trigger] s@[j]) as int != 44 && s@[j] as int != 47,
        },
{
    lemma_separator(s@);
}

/// These are the parts of a fid: a decimal volume id below 2^32, a comma or a slash, a hexadecimal
/// needle id of one to sixteen digits, eight hexadecimal digits of cookie, and after an underscore
/// perhaps a decimal delta below 2^64.
pub open spec fn parts(
    s: Seq<char>,
    volume: Seq<char>,
    separator: char,
    key: Seq<char>,
    cookie: Seq<char>,
    delta: Option<Seq<char>>,
) -> bool {
    &&& text::digits(volume, 10) && text::number(volume, 10) < 4294967296
    &&& separator as int == 44 || separator as int == 47
    &&& text::digits(key, 16) && key.len() <= 16
    &&& text::digits(cookie, 16) && cookie.len() == 8
    &&& match delta {
        None => s == volume + seq![separator] + key + cookie,
        Some(moved) => {
            &&& text::digits(moved, 10) && text::number(moved, 10) < 18446744073709551616
            &&& s == volume + seq![separator] + key + cookie + seq!['_'] + moved
        },
    }
}

/// A fid stands for the numbers that its parts write: the needle is the sum of the key and the
/// delta, less 2^64 where the sum does not fit a needle id.
pub proof fn law_fid_names_its_needle(
    s: &str,
    volume: Seq<char>,
    separator: char,
    key: Seq<char>,
    cookie: Seq<char>,
    delta: Option<Seq<char>>,
    result: Result<(u32, u64, u32), ParseFidError>,
)
    requires
        call_ensures(parse_fid, (s,), result),
        parts(s@, volume, separator, key, cookie, delta),
    ensures
        ({
            let sum = text::number(key, 16) + match delta {
                None => 0,
                Some(moved) => text::number(moved, 10),
            };
            &&& result matches Ok((volume_id, needle_id, cookie_number))
            &&& volume_id == text::number(volume, 10)
            &&& cookie_number == text::number(cookie, 16)
            &&& needle_id == if sum < 18446744073709551616 {
                sum
            } else {
                sum - 18446744073709551616
            }
        }),
{
    text::lemma_numeral(volume, 10);
    text::lemma_numeral(key, 16);
    text::lemma_numeral(cookie, 16);
    if let Some(moved) = delta {
        text::lemma_numeral(moved, 10);
    }
    assert(s@ =~= parse_fid::fid_text(volume, separator, key, cookie, delta));
    parse_fid::law_fid_grammar_is_accepted(volume, separator, key, cookie, delta);
}

/// Only a text that is made of the parts of a fid is read as one.
pub proof fn law_only_fids_are_read(s: &str, result: Result<(u32, u64, u32), ParseFidError>)
    requires
        call_ensures(parse_fid, (s,), result),
        result is Ok,
    ensures
        exists|
            volume: Seq<char>,
            separator: char,
            key: Seq<char>,
            cookie: Seq<char>,
            delta: Option<Seq<char>>,
        | #[trigger]
            parts(s@, volume, separator, key, cookie, delta),
{
    parse_fid::law_only_the_fid_grammar_is_accepted(s@);
    let (volume, separator, key, cookie, delta) = choose|
        volume: Seq<char>,
        separator: char,
        key: Seq<char>,
        cookie: Seq<char>,
        delta: Option<Seq<char>>,
    | #[trigger]
        parse_fid::fid_parts(volume, separator, key, cookie, delta) && s@ == parse_fid::fid_text(
            volume,
            separator,
            key,
            cookie,
            delta,
        );
    text::lemma_numeral(volume, 10);
    text::lemma_numeral(key, 16);
    text::lemma_numeral(cookie, 16);
    match delta {
        None => {
            assert(s@ =~= volume + seq![separator] + key + cookie);
        },
        Some(moved) => {
            text::lemma_numeral(moved, 10);
            assert(s@ =~= volume + seq![separator] + key + cookie + seq!['_'] + moved);
        },
    }
    assert(parts(s@, volume, separator, key, cookie, delta));
}

/// A text is refused for the first thing that it lacks: any character, a separator, something
/// before it, something after it. What lacks none of these is a fid or is no file id.
pub proof fn law_fid_is_refused_for_what_it_lacks(
    s: &str,
    result: Result<(u32, u64, u32), ParseFidError>,
)
    requires
        call_ensures(parse_fid, (s,), result),
    ensures
        result == Err::<(u32, u64, u32), _>(ParseFidError::Empty) <==> s@.len() == 0,
        result == Err::<(u32, u64, u32), _>(ParseFidError::MissingSeparator) <==> s@.len() > 0
            && forall|j: int|
            0 <= j < s@.len() ==> (#[trigger] s@[j]) as int != 44 && s@[j] as int != 47,
        result == Err::<(u32, u64, u32), _>(ParseFidError::EmptyVolume) <==> splits(s@, 0),
        result == Err::<(u32, u64, u32), _>(ParseFidError::EmptyKey) <==> s@.len() > 1 && splits(
            s@,
            s@.len() - 1,
        ),
{
    lemma_separator(s@);
    if let Some(i) = file_id::separator(s@) {
        assert(splits(s@, i));
        if splits(s@, 0) {
            lemma_splits_once(s@, i, 0);
        }
        if splits(s@, s@.len() - 1) {
            lemma_splits_once(s@, i, s@.len() - 1);
        }
        assert(s@[i] as int == 44 || s@[i] as int == 47);
    }
}

/// The volume APIs and the fid parser read the same texts, to the same numbers; a text that has
/// both halves is refused in the words of the file id parser.
pub proof fn law_file_ids_are_fids(
    s: &str,
    parsed: Result<FileId, String>,
    result: Result<(u32, u64, u32), ParseFidError>,
)
    requires
        call_ensures(FileId::parse, (s,), parsed),
        call_ensures(parse_fid, (s,), result),
    ensures
        parsed is Ok <==> result is Ok,
        parsed matches Ok(id) ==> result == Ok::<_, ParseFidError>(
            (id.volume_id.0, id.key.0, id.cookie.0),
        ),
        result matches Err(ParseFidError::InvalidFileId(words)) ==> (parsed matches Err(message)
            && message@ == words@),
{
    parse_fid::law_fids_are_file_ids(s@);
}

/// The words for a fid error are fixed, and end in those of the file id parser where there are any.
pub proof fn law_fid_errors_have_words(error: &ParseFidError, message: String)
    requires
        call_ensures(ParseFidError::message, (error,), message),
    ensures
        message@ == match *error {
            ParseFidError::Empty => "fid is empty"@,
            ParseFidError::MissingSeparator => "fid missing comma or slash separator"@,
            ParseFidError::EmptyVolume => "fid has empty volume_id half"@,
            ParseFidError::EmptyKey => "fid has empty key half"@,
            ParseFidError::InvalidFileId(words) => "invalid fid: "@ + words@,
        },
{
}

} // verus!
