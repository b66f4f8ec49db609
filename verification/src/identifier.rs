//! Resource identifiers: the strings that name what the proxy serves.
//!
//! An identifier is made of path segments. Each segment that a caller supplies
//! is percent-encoded, so that it holds no path separator of its own.

use vstd::prelude::*;
use vstd::string::StringExecFns;
use vstd::utf8::encode_utf8;

verus! {

/// Percent-encoding writes the byte `b` as it is.
pub open spec fn is_unreserved(b: u8) -> bool {
    ||| 0x30 <= b <= 0x39
    ||| 0x41 <= b <= 0x5a
    ||| 0x61 <= b <= 0x7a
    ||| b == 0x2d
    ||| b == 0x2e
    ||| b == 0x5f
    ||| b == 0x7e
}

/// The upper-case hexadecimal digit of `d`, for `d` below 16.
pub open spec fn hex_digit(d: u8) -> char {
    if d < 10 {
        ((48 + d) as u8) as char
    } else {
        ((55 + d) as u8) as char
    }
}

/// The percent-encoding of one byte: the byte itself where it is a letter, a
/// digit or one of `-`, `.`, `_`, `~`, and else `%` with its two hexadecimal
/// digits.
pub open spec fn encoded_byte(b: u8) -> Seq<char> {
    if is_unreserved(b) {
        seq![b as char]
    } else {
        seq!['%', hex_digit(b / 16), hex_digit(b % 16)]
    }
}

/// The percent-encoding of `bytes`.
pub open spec fn percent_encoded(bytes: Seq<u8>) -> Seq<char>
    decreases bytes.len(),
{
    if bytes.len() == 0 {
        Seq::empty()
    } else {
        encoded_byte(bytes[0]) + percent_encoded(bytes.skip(1))
    }
}

/// The path segment that stands for `name`: the percent-encoding of its
/// UTF-8 bytes.
pub open spec fn segment(name: Seq<char>) -> Seq<char> {
    percent_encoded(encode_utf8(name))
}

/// The identifier of the metadata of `package`.
pub open spec fn metadata_uri(package: Seq<char>) -> Seq<char> {
    segment(package)
}

/// The identifier of the file `file` of `package`.
pub open spec fn file_uri(package: Seq<char>, file: Seq<char>) -> Seq<char> {
    segment(package) + "/-/"@ + segment(file)
}

/// The identifier of the dist-tags of `package`.
pub open spec fn dist_tags_uri(package: Seq<char>) -> Seq<char> {
    "-/package/"@ + segment(package) + "/dist-tags"@
}

/// The name of the package `name` in the scope `scope`, as one package name.
pub open spec fn scoped_name(scope: Seq<char>, name: Seq<char>) -> Seq<char> {
    "@"@ + scope + "/"@ + name
}

/// `uri` has the form of a metadata identifier: it is one segment, without a
/// path separator.
pub open spec fn is_metadata_form(uri: Seq<char>) -> bool {
    !uri.contains('/')
}

/// Calls `urlencoding::encode`, which percent-encodes every byte of the
/// string's UTF-8 form except letters, digits and `-`, `_`, `.`, `~`, with
/// upper-case hexadecimal digits.
#[verifier::external_body]
fn percent_encode(text: &str) -> (out: String)
    ensures
        out@ == percent_encoded(encode_utf8(text@)),
{
    urlencoding::encode(text).into_owned()
}

/// The identifier of the metadata of the package `package_name`.
pub fn metadata_identifier(package_name: &str) -> (uri: String)
    ensures
        uri@ == metadata_uri(package_name@),
{
    percent_encode(package_name)
}

/// The identifier of the file `file_name` of the package `package_name`.
pub fn file_identifier(package_name: &str, file_name: &str) -> (uri: String)
    ensures
        uri@ == file_uri(package_name@, file_name@),
{
    let mut uri = percent_encode(package_name);
    uri.append("/-/");
    let file = percent_encode(file_name);
    uri.append(file.as_str());
    uri
}

/// The identifier of the dist-tags of the package `package_name`.
pub fn dist_tags_identifier(package_name: &str) -> (uri: String)
    ensures
        uri@ == dist_tags_uri(package_name@),
{
    let mut uri = "-/package/".to_owned();
    let package = percent_encode(package_name);
    uri.append(package.as_str());
    uri.append("/dist-tags");
    uri
}

/// Joins a scope and a name into the one package name `@scope/name`.
pub fn scoped_package_name(scope: &str, name: &str) -> (package: String)
    ensures
        package@ == scoped_name(scope@, name@),
{
    let mut package = "@".to_owned();
    package.append(scope);
    package.append("/");
    package.append(name);
    package
}

/// Whether `uri` has the form of a metadata identifier.
pub fn has_metadata_form(uri: &str) -> (plain: bool)
    ensures
        plain == is_metadata_form(uri@),
{
    let chars = crate::text::chars_of(uri);
    let mut i: usize = 0;
    while i < chars.len()
        invariant
            i <= chars.len(),
            chars@ == uri@,
            forall|k: int| 0 <= k < i ==> chars@[k] != '/',
        decreases chars.len() - i,
    {
        if chars[i] == '/' {
            return false;
        }
        i = i + 1;
    }
    true
}

/// A percent-encoded byte holds no path separator.
pub proof fn lemma_encoded_byte_has_no_slash(b: u8)
    ensures
        !encoded_byte(b).contains('/'),
{
    assert(forall|d: u8| d < 16 ==> #[trigger] hex_digit(d) != '/');
    assert(b / 16 < 16 && b % 16 < 16);
    if is_unreserved(b) {
        assert(b as char != '/');
    }
}

/// Percent-encoded bytes hold no path separator.
pub proof fn lemma_percent_encoded_has_no_slash(bytes: Seq<u8>)
    ensures
        !percent_encoded(bytes).contains('/'),
    decreases bytes.len(),
{
    if bytes.len() > 0 {
        lemma_encoded_byte_has_no_slash(bytes[0]);
        lemma_percent_encoded_has_no_slash(bytes.skip(1));
        let head = encoded_byte(bytes[0]);
        let tail = percent_encoded(bytes.skip(1));
        assert forall|i: int| 0 <= i < (head + tail).len() implies (head + tail)[i] != '/' by {
            if i < head.len() {
                assert(head.contains(head[i]));
            } else {
                assert(tail.contains(tail[i - head.len()]));
            }
        }
    }
}

/// Two bytes with the same percent-encoding are the same byte.
pub proof fn lemma_encoded_byte_is_unique(a: u8, b: u8)
    requires
        encoded_byte(a) == encoded_byte(b),
    ensures
        a == b,
{
    assert(forall|d: u8, e: u8|
        d < 16 && e < 16 && #[trigger] hex_digit(d) == #[trigger] hex_digit(e) ==> d == e);
    assert(a / 16 < 16 && a % 16 < 16 && b / 16 < 16 && b % 16 < 16);
    if is_unreserved(a) {
        assert(encoded_byte(a).len() == 1);
        assert(encoded_byte(a)[0] == a as char);
        assert(is_unreserved(b));
        assert(encoded_byte(b)[0] == b as char);
    } else {
        assert(encoded_byte(a).len() == 3);
        assert(!is_unreserved(b));
        assert(encoded_byte(a)[1] == hex_digit(a / 16) && encoded_byte(a)[2] == hex_digit(a % 16));
        assert(encoded_byte(b)[1] == hex_digit(b / 16) && encoded_byte(b)[2] == hex_digit(b % 16));
        assert(a == a / 16 * 16 + a % 16 && b == b / 16 * 16 + b % 16);
    }
}

/// Two byte sequences with the same percent-encoding are the same sequence.
pub proof fn lemma_percent_encoded_is_unique(x: Seq<u8>, y: Seq<u8>)
    requires
        percent_encoded(x) == percent_encoded(y),
    ensures
        x == y,
    decreases x.len(),
{
    if x.len() == 0 {
        if y.len() > 0 {
            assert(percent_encoded(y).len() >= encoded_byte(y[0]).len());
        }
        assert(x =~= y);
    } else if y.len() == 0 {
        assert(percent_encoded(x).len() >= encoded_byte(x[0]).len());
    } else {
        let head_x = encoded_byte(x[0]);
        let head_y = encoded_byte(y[0]);
        let tail_x = percent_encoded(x.skip(1));
        let tail_y = percent_encoded(y.skip(1));
        let whole = percent_encoded(x);
        assert(whole == head_x + tail_x && whole == head_y + tail_y);
        assert(whole[0] == head_x[0] && whole[0] == head_y[0]);
        assert('%' == 0x25u8 as char);
        if is_unreserved(x[0]) {
            assert(head_x[0] == x[0] as char);
            assert(is_unreserved(y[0]));
        } else {
            assert(head_x[0] == '%');
            if is_unreserved(y[0]) {
                assert(head_y[0] == y[0] as char);
            }
            assert(!is_unreserved(y[0]));
        }
        assert(head_x.len() == head_y.len());
        assert(head_x =~= whole.take(head_x.len() as int));
        assert(head_y =~= whole.take(head_x.len() as int));
        assert(tail_x =~= whole.skip(head_x.len() as int));
        assert(tail_y =~= whole.skip(head_x.len() as int));
        lemma_encoded_byte_is_unique(x[0], y[0]);
        lemma_percent_encoded_is_unique(x.skip(1), y.skip(1));
        assert(x =~= seq![x[0]] + x.skip(1));
        assert(y =~= seq![y[0]] + y.skip(1));
    }
}

/// Two names with the same segment are the same name.
pub proof fn lemma_segment_is_unique(a: Seq<char>, b: Seq<char>)
    requires
        segment(a) == segment(b),
    ensures
        a == b,
{
    lemma_percent_encoded_is_unique(encode_utf8(a), encode_utf8(b));
    vstd::utf8::encode_utf8_decode_utf8(a);
    vstd::utf8::encode_utf8_decode_utf8(b);
}

/// A segment holds no path separator.
pub proof fn lemma_segment_has_no_slash(name: Seq<char>)
    ensures
        forall|i: int| 0 <= i < segment(name).len() ==> segment(name)[i] != '/',
{
    lemma_percent_encoded_has_no_slash(encode_utf8(name));
    assert forall|i: int| 0 <= i < segment(name).len() implies segment(name)[i] != '/' by {
        assert(segment(name).contains(segment(name)[i]));
    }
}

/// An identifier names one resource: two packages with the same metadata
/// identifier are the same package, two files with the same file identifier
/// are the same file of the same package, and two packages with the same
/// dist-tags identifier are the same package.
pub proof fn law_identifiers_are_unique(
    package: Seq<char>,
    file: Seq<char>,
    other_package: Seq<char>,
    other_file: Seq<char>,
)
    ensures
        metadata_uri(package) == metadata_uri(other_package) ==> package == other_package,
        file_uri(package, file) == file_uri(other_package, other_file) ==> package
            == other_package && file == other_file,
        dist_tags_uri(package) == dist_tags_uri(other_package) ==> package == other_package,
{
    reveal_strlit("/-/");
    reveal_strlit("-/package/");
    reveal_strlit("/dist-tags");
    if metadata_uri(package) == metadata_uri(other_package) {
        lemma_segment_is_unique(package, other_package);
    }
    if file_uri(package, file) == file_uri(other_package, other_file) {
        let whole = file_uri(package, file);
        let a = segment(package);
        let b = segment(other_package);
        lemma_segment_has_no_slash(package);
        lemma_segment_has_no_slash(other_package);
        assert(whole[a.len() as int] == '/');
        assert(whole[b.len() as int] == '/');
        if a.len() < b.len() {
            assert(whole[a.len() as int] == b[a.len() as int]);
        }
        if b.len() < a.len() {
            assert(whole[b.len() as int] == a[b.len() as int]);
        }
        assert(a =~= whole.take(a.len() as int));
        assert(b =~= whole.take(a.len() as int));
        assert(segment(file) =~= whole.skip((a.len() + 3) as int));
        assert(segment(other_file) =~= whole.skip((a.len() + 3) as int));
        lemma_segment_is_unique(package, other_package);
        lemma_segment_is_unique(file, other_file);
    }
    if dist_tags_uri(package) == dist_tags_uri(other_package) {
        let whole = dist_tags_uri(package);
        let a = segment(package);
        let b = segment(other_package);
        assert(whole.len() == 10 + a.len() + 10);
        assert(whole.len() == 10 + b.len() + 10);
        assert(a =~= whole.subrange(10, (10 + a.len()) as int));
        assert(b =~= whole.subrange(10, (10 + a.len()) as int));
        lemma_segment_is_unique(package, other_package);
    }
}

/// The three forms of identifier keep apart: no identifier of one form is an
/// identifier of another form.
pub proof fn law_forms_keep_apart(package: Seq<char>, file: Seq<char>, other_package: Seq<char>)
    ensures
        metadata_uri(other_package) != file_uri(package, file),
        metadata_uri(other_package) != dist_tags_uri(package),
        file_uri(package, file) != dist_tags_uri(other_package),
{
    law_metadata_identifier_is_plain(other_package);
    law_other_identifiers_are_not_plain(package, file);
    reveal_strlit("/-/");
    reveal_strlit("-/package/");
    reveal_strlit("/dist-tags");
    let whole = file_uri(package, file);
    let tags = dist_tags_uri(other_package);
    let a = segment(package);
    lemma_segment_has_no_slash(package);
    assert(tags[0] == '-' && tags[1] == '/' && tags[2] == 'p');
    if a.len() == 0 {
        assert(whole[0] == '/');
    } else if a.len() == 1 {
        assert(whole[2] == '-');
    } else {
        assert(whole[1] == a[1]);
    }
}

/// Every metadata identifier has the metadata form, whatever the package is
/// called.
pub proof fn law_metadata_identifier_is_plain(package: Seq<char>)
    ensures
        is_metadata_form(metadata_uri(package)),
{
    lemma_percent_encoded_has_no_slash(encode_utf8(package));
}

/// No file identifier and no dist-tags identifier has the metadata form.
pub proof fn law_other_identifiers_are_not_plain(package: Seq<char>, file: Seq<char>)
    ensures
        !is_metadata_form(file_uri(package, file)),
        !is_metadata_form(dist_tags_uri(package)),
{
    reveal_strlit("/-/");
    reveal_strlit("-/package/");
    reveal_strlit("/dist-tags");
    let f = file_uri(package, file);
    assert(f[segment(package).len() as int] == '/');
    let d = dist_tags_uri(package);
    assert(d[1] == '/');
}

} // verus!
