//! Names of the records of the cache store.
//!
//! A record is stored under a name made from its identifier by a reversible
//! text encoding, base64, followed by a fixed suffix. The store is listed by
//! turning the names of its records back into identifiers.

use crate::identifier::{has_metadata_form, is_metadata_form};
use crate::text::{chars_occur_at, chars_of};
use vstd::prelude::*;
use vstd::string::{StrSliceExecFns, StringExecFns};
use vstd::utf8::{decode_utf8, encode_utf8, valid_utf8};

verus! {

/// `std::string::FromUtf8Error`, of which nothing is known here.
#[verifier::external_type_specification]
#[verifier::external_body]
pub struct ExFromUtf8Error(std::string::FromUtf8Error);

/// `base64::DecodeError`, of which nothing is known here.
#[verifier::external_type_specification]
#[verifier::external_body]
pub struct ExDecodeError(base64::DecodeError);

/// The text that the standard base64 engine of the `base64` crate, with
/// padding, encodes `bytes` to.
pub uninterp spec fn base64_text(bytes: Seq<u8>) -> Seq<char>;

/// The bytes that the standard base64 engine of the `base64` crate decodes
/// `text` to, or `None` where it reports an error.
pub uninterp spec fn base64_bytes(text: Seq<char>) -> Option<Seq<u8>>;

/// The buffer that base64 needs for `len` bytes can be allocated.
pub open spec fn base64_fits(len: nat) -> bool {
    len / 3 * 4 + 4 <= usize::MAX
}

/// The suffix of every record name.
pub open spec fn record_suffix() -> Seq<char> {
    ".bin"@
}

/// The name of the record of the identifier `uri`.
pub open spec fn record_name(uri: Seq<char>) -> Seq<char> {
    base64_text(encode_utf8(uri)) + record_suffix()
}

/// The identifier whose record is named `name`: the name ends in the record
/// suffix, what stands before it decodes, and the bytes are text. `None` for
/// any other name.
pub open spec fn record_uri(name: Seq<char>) -> Option<Seq<char>> {
    let stem = name.len() - record_suffix().len();
    if crate::text::occurs_at(name, record_suffix(), stem) {
        match base64_bytes(name.subrange(0, stem)) {
            Some(bytes) => if valid_utf8(bytes) {
                Some(decode_utf8(bytes))
            } else {
                None
            },
            None => None,
        }
    } else {
        None
    }
}

/// The views of `strings`, in order.
pub open spec fn string_views(strings: Seq<String>) -> Seq<Seq<char>> {
    Seq::new(strings.len(), |i: int| strings[i]@)
}

/// The identifiers of the records named `names`, in order. A name that is not
/// the name of a record is passed over.
pub open spec fn listed(names: Seq<Seq<char>>) -> Seq<Seq<char>>
    decreases names.len(),
{
    if names.len() == 0 {
        Seq::empty()
    } else {
        match record_uri(names.last()) {
            Some(uri) => listed(names.drop_last()).push(uri),
            None => listed(names.drop_last()),
        }
    }
}

/// Those of `uris` that have the metadata form, in order.
pub open spec fn plain_only(uris: Seq<Seq<char>>) -> Seq<Seq<char>>
    decreases uris.len(),
{
    if uris.len() == 0 {
        Seq::empty()
    } else if is_metadata_form(uris.last()) {
        plain_only(uris.drop_last()).push(uris.last())
    } else {
        plain_only(uris.drop_last())
    }
}

/// Calls `encode` of `base64::prelude::BASE64_STANDARD`. The result is named
/// by [`base64_text`]. The call panics where the length of the output does
/// not fit in `usize`, which `requires` leaves out.
#[verifier::external_body]
fn base64_encode(bytes: &[u8]) -> (text: String)
    requires
        base64_fits(bytes@.len()),
    ensures
        text@ == base64_text(bytes@),
{
    base64::Engine::encode(&base64::prelude::BASE64_STANDARD, bytes)
}

/// Calls `decode` of `base64::prelude::BASE64_STANDARD`. The result is named
/// by [`base64_bytes`]. One fact is stated of it: the engine decodes what it
/// has encoded to the bytes that were encoded.
#[verifier::external_body]
fn base64_decode(text: &str) -> (decoded: Result<Vec<u8>, base64::DecodeError>)
    ensures
        match decoded {
            Ok(bytes) => base64_bytes(text@) == Some(bytes@),
            Err(_) => base64_bytes(text@) is None,
        },
        forall|bytes: Seq<u8>|
            #[trigger] base64_text(bytes) == text@ ==> decoded is Ok && decoded->Ok_0@ == bytes,
{
    base64::Engine::decode(&base64::prelude::BASE64_STANDARD, text)
}

/// Calls `String::from_utf8`, which gives the text that `bytes` encode in
/// UTF-8, and an error where they are not UTF-8.
#[verifier::external_body]
fn text_of_bytes(bytes: Vec<u8>) -> (text: Result<String, std::string::FromUtf8Error>)
    ensures
        match text {
            Ok(text) => valid_utf8(bytes@) && text@ == decode_utf8(bytes@),
            Err(_) => !valid_utf8(bytes@),
        },
{
    String::from_utf8(bytes)
}

/// The name of the record of the identifier `uri`, or `None` where the
/// identifier is too long to be given a name.
pub fn name_of_record(uri: &str) -> (name: Option<String>)
    ensures
        match name {
            Some(name) => base64_fits(encode_utf8(uri@).len()) && name@ == record_name(uri@),
            None => !base64_fits(encode_utf8(uri@).len()),
        },
{
    let bytes = uri.as_bytes();
    if bytes.len() / 3 > (usize::MAX - 4) / 4 {
        return None;
    }
    let mut name = base64_encode(bytes);
    name.append(".bin");
    Some(name)
}

/// The identifier whose record is named `name`, or `None` where `name` is not
/// the name of a record. The name that [`name_of_record`] gives to an
/// identifier is always turned back into that identifier.
pub fn uri_of_record(name: &str) -> (uri: Option<String>)
    ensures
        match uri {
            Some(uri) => record_uri(name@) == Some(uri@),
            None => record_uri(name@) is None,
        },
        forall|id: Seq<char>|
            #[trigger] record_name(id) == name@ ==> uri is Some && uri->0@ == id,
{
    let chars = chars_of(name);
    let suffix = chars_of(".bin");
    if chars.len() < suffix.len() {
        proof {
            lemma_record_name_ends_in_suffix();
        }
        return None;
    }
    let stem = chars.len() - suffix.len();
    if !chars_occur_at(&chars, &suffix, stem) {
        proof {
            lemma_record_name_ends_in_suffix();
        }
        return None;
    }
    let encoded = name.substring_char(0, stem);
    assert forall|id: Seq<char>| #[trigger] record_name(id) == name@ implies base64_text(
        encode_utf8(id),
    ) == encoded@ by {
        assert(record_name(id).subrange(0, stem as int) == base64_text(encode_utf8(id)));
    }
    let decoded = base64_decode(encoded);
    proof {
        assert forall|id: Seq<char>| #[trigger] record_name(id) == name@ implies decoded is Ok
            && decoded->Ok_0@ == encode_utf8(id) && valid_utf8(decoded->Ok_0@) && decode_utf8(
            decoded->Ok_0@,
        ) == id by {
            assert(base64_text(encode_utf8(id)) == encoded@);
            vstd::utf8::encode_utf8_valid_utf8(id);
            vstd::utf8::encode_utf8_decode_utf8(id);
        }
    }
    match decoded {
        Ok(bytes) => match text_of_bytes(bytes) {
            Ok(uri) => Some(uri),
            Err(_) => None,
        },
        Err(_) => None,
    }
}

/// Every record name ends in the record suffix.
proof fn lemma_record_name_ends_in_suffix()
    ensures
        forall|id: Seq<char>|
            crate::text::occurs_at(
                #[trigger] record_name(id),
                record_suffix(),
                record_name(id).len() - record_suffix().len(),
            ),
{
    assert forall|id: Seq<char>|
        crate::text::occurs_at(
            #[trigger] record_name(id),
            record_suffix(),
            record_name(id).len() - record_suffix().len(),
        ) by {
        let text = base64_text(encode_utf8(id));
        assert(record_name(id).subrange(text.len() as int, record_name(id).len() as int)
            == record_suffix());
    }
}

/// The identifiers of the records named `names`: all keys of the store.
/// Names that are not names of records are passed over.
pub fn list_records(names: &Vec<String>) -> (uris: Vec<String>)
    ensures
        string_views(uris@) == listed(string_views(names@)),
{
    let mut uris: Vec<String> = Vec::new();
    let ghost all = string_views(names@);
    let mut i: usize = 0;
    assert(string_views(uris@) =~= listed(all.take(0)));
    while i < names.len()
        invariant
            i <= names.len(),
            all == string_views(names@),
            string_views(uris@) == listed(all.take(i as int)),
        decreases names.len() - i,
    {
        assert(all.take(i + 1).drop_last() == all.take(i as int));
        assert(all.take(i + 1).last() == names@[i as int]@);
        let ghost before = string_views(uris@);
        match uri_of_record(names[i].as_str()) {
            Some(uri) => {
                uris.push(uri);
                assert(string_views(uris@) =~= before.push(uri@));
            },
            None => {},
        }
        i = i + 1;
    }
    assert(all.take(names.len() as int) == all);
    uris
}

/// The identifiers of the cached package metadata, among the records named
/// `names`: the keys of the store that have the metadata form.
pub fn list_packages(names: &Vec<String>) -> (uris: Vec<String>)
    ensures
        string_views(uris@) == plain_only(listed(string_views(names@))),
{
    let keys = list_records(names);
    let mut uris: Vec<String> = Vec::new();
    let ghost all = string_views(keys@);
    let mut i: usize = 0;
    assert(string_views(uris@) =~= plain_only(all.take(0)));
    while i < keys.len()
        invariant
            i <= keys.len(),
            all == string_views(keys@),
            string_views(uris@) == plain_only(all.take(i as int)),
        decreases keys.len() - i,
    {
        assert(all.take(i + 1).drop_last() == all.take(i as int));
        assert(all.take(i + 1).last() == keys@[i as int]@);
        let ghost before = string_views(uris@);
        if has_metadata_form(keys[i].as_str()) {
            uris.push(keys[i].clone());
            assert(string_views(uris@) =~= before.push(keys@[i as int]@));
        }
        i = i + 1;
    }
    assert(all.take(keys.len() as int) == all);
    uris
}

} // verus!
