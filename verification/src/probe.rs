//! What a server's first answer says about a download: its size, its ranges, its name.

use crate::task::opt_text;
use crate::text;
use crate::text::CharClass;
use vstd::prelude::*;
use vstd::string::*;
use vstd::utf8::*;

verus! {

/// The answer to a probe: the status code, and those headers that are there and readable.
pub struct ProbeResponse {
    pub status: u16,
    pub content_range: Option<String>,
    pub content_length: Option<String>,
    pub accept_ranges: Option<String>,
    pub content_disposition: Option<String>,
}

/// The status code of an answer that holds a part of the resource.
pub const PARTIAL_CONTENT: u16 = 206;

/// The size of the resource. Of a partial answer it is what follows the last slash of
/// `Content-Range`, of any other answer it is `Content-Length`.
pub open spec fn probed_size(resp: ProbeResponse) -> Option<u64> {
    if resp.status == PARTIAL_CONTENT {
        match opt_text(resp.content_range) {
            Some(v) => text::unsigned(text::after_last(v, '/')),
            None => None,
        }
    } else {
        match opt_text(resp.content_length) {
            Some(v) => text::unsigned(v),
            None => None,
        }
    }
}

/// Whether the server gives out parts: it has just done so, or it says so in `Accept-Ranges`.
pub open spec fn serves_ranges(resp: ProbeResponse) -> bool {
    ||| resp.status == PARTIAL_CONTENT
    ||| match opt_text(resp.accept_ranges) {
        Some(v) => text::occurs(v, "bytes"@),
        None => false,
    }
}

/// The name that a `Content-Disposition` header gives: what follows the first `filename=`,
/// without the quotation marks and then the apostrophes around it, unless nothing is left.
pub open spec fn disposition_name(header: Seq<char>) -> Option<Seq<char>> {
    match text::position(header, "filename="@) {
        Some(at) => {
            let value = header.skip(at + "filename="@.len());
            let name = text::trimmed(
                text::trimmed(value, CharClass::Just('"')),
                CharClass::Just('\''),
            );
            if name.len() == 0 {
                None
            } else {
                Some(name)
            }
        },
        None => None,
    }
}

/// The value of a hexadecimal digit.
pub open spec fn hex_value(b: u8) -> Option<u8> {
    if 0x30 <= b <= 0x39 {
        Some((b - 0x30) as u8)
    } else if 0x41 <= b <= 0x46 {
        Some((b - 0x41 + 10) as u8)
    } else if 0x61 <= b <= 0x66 {
        Some((b - 0x61 + 10) as u8)
    } else {
        None
    }
}

/// Bytes with each `%` and the two hexadecimal digits behind it replaced by the byte that the
/// digits write; any other byte stays.
pub open spec fn percent_bytes(b: Seq<u8>) -> Seq<u8>
    decreases b.len(),
{
    if b.len() == 0 {
        b
    } else if b.len() >= 3 && b[0] == 0x25 && hex_value(b[1]) is Some && hex_value(b[2]) is Some {
        seq![(hex_value(b[1])->0 * 16 + hex_value(b[2])->0) as u8] + percent_bytes(b.skip(3))
    } else {
        seq![b[0]] + percent_bytes(b.skip(1))
    }
}

/// A text with its percent-escapes decoded; `None` where the bytes are no UTF-8.
pub open spec fn percent_decoded(s: Seq<char>) -> Option<Seq<char>> {
    let bytes = percent_bytes(encode_utf8(s));
    if valid_utf8(bytes) {
        Some(decode_utf8(bytes))
    } else {
        None
    }
}

/// The path of a URL, as `url::Url::parse` and `Url::path` give it: `None` where the text is no
/// URL.
pub uninterp spec fn url_path(url: Seq<char>) -> Option<Seq<char>>;

/// The last of the segments that slashes separate in a URL's path. A path that does not begin with
/// a slash has no segments.
pub open spec fn last_segment(path: Option<Seq<char>>) -> Option<Seq<char>> {
    match path {
        Some(p) => if p.len() > 0 && p[0] == '/' {
            Some(text::after_last(p.skip(1), '/'))
        } else {
            None
        },
        None => None,
    }
}

/// The name at the end of a URL's path: its last segment decoded, or as it stands where it
/// cannot be decoded, unless that is empty or a slash.
pub open spec fn segment_name(path: Option<Seq<char>>) -> Option<Seq<char>> {
    match last_segment(path) {
        Some(segment) => {
            let name = match percent_decoded(segment) {
                Some(decoded) => decoded,
                None => segment,
            };
            if name.len() == 0 || name == "/"@ {
                None
            } else {
                Some(name)
            }
        },
        None => None,
    }
}

/// The name under which a download is kept: the one that the server gives, else the one at the
/// end of the URL's path, else `download`.
pub open spec fn chosen_name(disposition: Option<Seq<char>>, path: Option<Seq<char>>) -> Seq<char> {
    let given = match disposition {
        Some(header) => disposition_name(header),
        None => None,
    };
    match given {
        Some(name) => name,
        None => match segment_name(path) {
            Some(name) => name,
            None => "download"@,
        },
    }
}

/// The path of a URL, by `url::Url::parse` and `Url::path`. Claimed is that it depends on the text
/// alone; which path comes is not stated.
#[verifier::external_body]
fn parse_url_path(url: &str) -> (r: Option<String>)
    ensures
        opt_text(r) == url_path(url@),
{
    url::Url::parse(url).ok().map(|parsed| parsed.path().to_string())
}

/// A text with its percent-escapes decoded, by `urlencoding::decode`. Claimed is that each `%`
/// with two hexadecimal digits behind it gives the byte that the digits write, that all other
/// bytes stay, and that the call fails exactly where the outcome is no UTF-8.
#[verifier::external_body]
fn percent_decode(s: &str) -> (r: Option<String>)
    ensures
        opt_text(r) == percent_decoded(s@),
{
    urlencoding::decode(s).ok().map(|decoded| decoded.into_owned())
}

/// The size of the resource that a probe was answered for.
pub fn probe_size(resp: &ProbeResponse) -> (r: Option<u64>)
    ensures
        r == probed_size(*resp),
{
    if resp.status == PARTIAL_CONTENT {
        match &resp.content_range {
            Some(v) => {
                let total = text::text_after_last(v.as_str(), '/');
                text::parse_u64(total.as_str())
            },
            None => None,
        }
    } else {
        match &resp.content_length {
            Some(v) => text::parse_u64(v.as_str()),
            None => None,
        }
    }
}

/// Whether the server gives out parts of the resource.
pub fn probe_ranges(resp: &ProbeResponse) -> (r: bool)
    ensures
        r == serves_ranges(*resp),
{
    if resp.status == PARTIAL_CONTENT {
        return true;
    }
    match &resp.accept_ranges {
        Some(v) => text::contains(v.as_str(), "bytes"),
        None => false,
    }
}

/// The name that a `Content-Disposition` header gives.
pub fn name_from_disposition(header: &str) -> (r: Option<String>)
    ensures
        opt_text(r) == disposition_name(header@),
{
    match text::find(header, "filename=") {
        Some(at) => {
            proof {
                reveal_strlit("filename=");
            }
            let end: usize = header.unicode_len();
            let value = header.substring_char(at + 9, end);
            assert(value@ =~= header@.skip(at + 9));
            let unquoted = text::trim(value, CharClass::Just('"'));
            let name = text::trim(unquoted.as_str(), CharClass::Just('\''));
            if name.as_str().is_empty() {
                None
            } else {
                Some(name)
            }
        },
        None => None,
    }
}

/// The name at the end of a URL's path.
pub fn name_from_path(path: &Option<String>) -> (r: Option<String>)
    ensures
        opt_text(r) == segment_name(opt_text(*path)),
{
    let p = match path {
        Some(p) => p.as_str(),
        None => {
            return None;
        },
    };
    let n: usize = p.unicode_len();
    if n == 0 || p.get_char(0) != '/' {
        return None;
    }
    let rest = p.substring_char(1, n);
    assert(rest@ =~= p@.skip(1));
    let last = text::text_after_last(rest, '/');
    let name = match percent_decode(last.as_str()) {
        Some(decoded) => decoded,
        None => last,
    };
    if name.as_str().is_empty() || text::text_eq(name.as_str(), "/") {
        None
    } else {
        Some(name)
    }
}

/// The name under which a download is kept, from the header and the URL's path.
pub fn choose_filename(disposition: &Option<String>, path: &Option<String>) -> (r: String)
    ensures
        r@ == chosen_name(opt_text(*disposition), opt_text(*path)),
{
    if let Some(header) = disposition {
        if let Some(name) = name_from_disposition(header.as_str()) {
            return name;
        }
    }
    match name_from_path(path) {
        Some(name) => name,
        None => "download".to_owned(),
    }
}

/// The name under which a download is kept.
pub fn extract_filename(disposition: &Option<String>, url: &str) -> (r: String)
    ensures
        r@ == chosen_name(opt_text(*disposition), url_path(url@)),
{
    choose_filename(disposition, &parse_url_path(url))
}

/// A name is never empty.
pub proof fn chosen_name_is_not_empty(disposition: Option<Seq<char>>, path: Option<Seq<char>>)
    ensures
        chosen_name(disposition, path).len() > 0,
{
    reveal_strlit("download");
}

spec fn no_percent(b: Seq<u8>) -> bool {
    forall|i: int| 0 <= i < b.len() ==> b[i] != 0x25u8
}

proof fn scalar_without_percent(ch: char)
    requires
        ch != '%',
    ensures
        no_percent(encode_scalar(ch as u32)),
{
    let c = ch as u32;
    assert(c != 0x25);
    if has_width_1_encoding(c) {
        assert(leading_byte_width_1(c) != 0x25u8) by (bit_vector)
            requires
                c != 0x25,
                c <= 0x7f,
        ;
    } else {
        assert(leading_byte_width_2(c) != 0x25u8) by (bit_vector);
        assert(leading_byte_width_3(c) != 0x25u8) by (bit_vector);
        assert(leading_byte_width_4(c) != 0x25u8) by (bit_vector);
        assert(last_continuation_byte(c) != 0x25u8) by (bit_vector);
        assert(second_last_continuation_byte(c) != 0x25u8) by (bit_vector);
        assert(third_last_continuation_byte(c) != 0x25u8) by (bit_vector);
    }
}

proof fn bytes_without_percent(s: Seq<char>)
    requires
        !s.contains('%'),
    ensures
        no_percent(encode_utf8(s)),
    decreases s.len(),
{
    if s.len() > 0 {
        let rest = s.drop_first();
        assert(s[0] != '%');
        assert(!rest.contains('%')) by {
            if rest.contains('%') {
                let k = choose|k: int| 0 <= k < rest.len() && rest[k] == '%';
                assert(s[k + 1] == '%');
            }
        }
        bytes_without_percent(rest);
        scalar_without_percent(s[0]);
    }
}

proof fn nothing_to_decode(b: Seq<u8>)
    requires
        no_percent(b),
    ensures
        percent_bytes(b) == b,
    decreases b.len(),
{
    if b.len() > 0 {
        nothing_to_decode(b.skip(1));
        assert(seq![b[0]] + b.skip(1) =~= b);
    }
}

/// A text without a percent sign is its own decoding.
pub proof fn unescaped_text_stays(s: Seq<char>)
    requires
        !s.contains('%'),
    ensures
        percent_decoded(s) == Some(s),
{
    bytes_without_percent(s);
    nothing_to_decode(encode_utf8(s));
    encode_utf8_valid_utf8(s);
    encode_utf8_decode_utf8(s);
}

/// The size of a partial answer is the number behind the last slash of `Content-Range`, whatever
/// else the answer holds; that of any other answer is `Content-Length`, whatever else it holds;
/// without the one or the other it is not known, nor where a server does not tell it.
pub proof fn size_stands_in_its_header(resp: ProbeResponse, front: Seq<char>, n: u64)
    ensures
        resp.status == 206 && opt_text(resp.content_range) == Some(
            front.push('/') + text::decimal(n as nat),
        ) ==> probed_size(resp) == Some(n),
        resp.status == 206 && opt_text(resp.content_range) == Some(front.push('/').push('*'))
            ==> probed_size(resp) is None,
        resp.status == 206 && resp.content_range is None ==> probed_size(resp) is None,
        resp.status != 206 && opt_text(resp.content_length) == Some(text::decimal(n as nat))
            ==> probed_size(resp) == Some(n),
        resp.status != 206 && resp.content_length is None ==> probed_size(resp) is None,
{
    let digits = text::decimal(n as nat);
    let whole = front.push('/') + digits;
    let from = front.len() as int + 1;
    text::decimal_is_digits(n as nat);
    text::decimal_reads_back(n);
    assert forall|j: int| from <= j < whole.len() implies whole[j] != '/' by {
        assert('0' <= digits[j - from] <= '9');
        assert(whole[j] == digits[j - from]);
    }
    text::after_last_is_suffix(whole, '/', from);
    assert(whole.skip(from) =~= digits);
    let star = front.push('/').push('*');
    text::after_last_is_suffix(star, '/', from);
    assert(star.skip(from) =~= seq!['*']);
    text::only_numbers_are_read(0, 0, seq!['*'], 0);
}

/// A server gives out parts exactly where its answer is one, or where the word `bytes` stands
/// somewhere in `Accept-Ranges`.
pub proof fn ranges_are_announced(resp: ProbeResponse)
    ensures
        serves_ranges(resp) <==> resp.status == 206 || exists|a: Seq<char>, b: Seq<char>|
            opt_text(resp.accept_ranges) == Some(#[trigger] (a + "bytes"@ + b)),
{
    let p = "bytes"@;
    if let Some(v) = opt_text(resp.accept_ranges) {
        if text::occurs(v, p) {
            let i = choose|i: int| text::occurs_at(v, p, i);
            let a = v.take(i);
            let b = v.skip(i + p.len());
            assert(v =~= a + p + b);
        }
        if exists|a: Seq<char>, b: Seq<char>| v == #[trigger] (a + p + b) {
            let (a, b) = choose|a: Seq<char>, b: Seq<char>| v == #[trigger] (a + p + b);
            assert(v.subrange(a.len() as int, (a.len() + p.len()) as int) =~= p);
            assert(text::occurs_at(v, p, a.len() as int));
        }
    }
}

/// Whether a text is a run of one character, possibly an empty one.
pub open spec fn all_of(s: Seq<char>, c: char) -> bool {
    forall|i: int| 0 <= i < s.len() ==> #[trigger] s[i] == c
}

proof fn first_key_is_found(front: Seq<char>, value: Seq<char>)
    requires
        !text::occurs(front + "filename"@, "filename="@),
    ensures
        text::position(front + "filename="@ + value, "filename="@) == Some(front.len() as int),
        (front + "filename="@ + value).skip((front.len() + "filename="@.len()) as int) == value,
{
    let p = "filename="@;
    assert(p =~= "filename"@.push('=')) by {
        reveal_strlit("filename");
        reveal_strlit("filename=");
    }
    text::first_occurrence_is_found(front, "filename"@, '=', value);
    assert((front + p + value).skip((front.len() + p.len()) as int) =~= value);
}

proof fn quotes_come_off(
    marks: (Seq<char>, Seq<char>),
    apostrophes: (Seq<char>, Seq<char>),
    name: Seq<char>,
)
    requires
        all_of(marks.0, '"'),
        all_of(marks.1, '"'),
        all_of(apostrophes.0, '\''),
        all_of(apostrophes.1, '\''),
        name.len() > 0 ==> name[0] != '"' && name[0] != '\'' && name.last() != '"' && name.last()
            != '\'',
    ensures
        text::trimmed(
            text::trimmed(
                marks.0 + (apostrophes.0 + name + apostrophes.1) + marks.1,
                CharClass::Just('"'),
            ),
            CharClass::Just('\''),
        ) == name,
{
    let inner = apostrophes.0 + name + apostrophes.1;
    assert(inner.len() > 0 ==> inner[0] != '"' && inner.last() != '"') by {
        if inner.len() > 0 {
            if apostrophes.0.len() > 0 {
                assert(inner[0] == apostrophes.0[0]);
            } else if name.len() > 0 {
                assert(inner[0] == name[0]);
            } else {
                assert(inner[0] == apostrophes.1[0]);
            }
            let n = inner.len() - 1;
            if apostrophes.1.len() > 0 {
                assert(inner[n] == apostrophes.1[apostrophes.1.len() - 1]);
            } else if name.len() > 0 {
                assert(inner[n] == name[name.len() - 1]);
            } else {
                assert(inner[n] == apostrophes.0[apostrophes.0.len() - 1]);
            }
        }
    }
    text::trimming_leaves_the_core(marks.0, inner, marks.1, CharClass::Just('"'));
    text::trimming_leaves_the_core(apostrophes.0, name, apostrophes.1, CharClass::Just('\''));
}

/// The name that a header gives is what stands behind its first `filename=`, without the
/// quotation marks at its ends and the apostrophes within these; a header in which nothing else
/// stands there gives none.
pub proof fn given_name_is_unquoted(
    front: Seq<char>,
    marks: (Seq<char>, Seq<char>),
    apostrophes: (Seq<char>, Seq<char>),
    name: Seq<char>,
)
    requires
        !text::occurs(front + "filename"@, "filename="@),
        all_of(marks.0, '"'),
        all_of(marks.1, '"'),
        all_of(apostrophes.0, '\''),
        all_of(apostrophes.1, '\''),
        name.len() > 0 ==> name[0] != '"' && name[0] != '\'' && name.last() != '"' && name.last()
            != '\'',
    ensures
        ({
            let value = marks.0 + (apostrophes.0 + name + apostrophes.1) + marks.1;
            let found = disposition_name(front + "filename="@ + value);
            &&& name.len() > 0 ==> found == Some(name)
            &&& name.len() == 0 ==> found is None
        }),
{
    let value = marks.0 + (apostrophes.0 + name + apostrophes.1) + marks.1;
    first_key_is_found(front, value);
    quotes_come_off(marks, apostrophes, name);
}

/// A header without `filename=` gives no name.
pub proof fn no_name_without_its_key(header: Seq<char>)
    requires
        !text::occurs(header, "filename="@),
    ensures
        disposition_name(header) is None,
{
    text::position_from_is_first(header, "filename="@, 0);
}

/// The sixteen hexadecimal digits stand for their numbers, in either case, and no other byte is
/// one.
pub proof fn hexadecimal_digits(b: u8, v: u8)
    ensures
        v < 10 ==> hex_value((0x30 + v) as u8) == Some(v),
        10 <= v < 16 ==> hex_value((0x41 + v - 10) as u8) == Some(v) && hex_value(
            (0x61 + v - 10) as u8,
        ) == Some(v),
        !(0x30 <= b <= 0x39) && !(0x41 <= b <= 0x46) && !(0x61 <= b <= 0x66) ==> hex_value(
            b,
        ) is None,
{
}

/// An escape is decoded to the byte that its two digits write, the high one first; a byte that is
/// no percent sign stays, and so does a percent sign without two digits behind it.
pub proof fn escapes_are_decoded(high: u8, low: u8, b: u8, rest: Seq<u8>)
    ensures
        hex_value(high) is Some && hex_value(low) is Some ==> percent_bytes(
            seq![0x25u8, high, low] + rest,
        ) == seq![(16 * hex_value(high)->0 + hex_value(low)->0) as u8] + percent_bytes(rest),
        b != 0x25 ==> percent_bytes(seq![b] + rest) == seq![b] + percent_bytes(rest),
        hex_value(high) is None ==> percent_bytes(seq![0x25u8, high] + rest) == seq![0x25u8]
            + percent_bytes(seq![high] + rest),
        percent_bytes(Seq::empty()).len() == 0,
{
    let escape = seq![0x25u8, high, low] + rest;
    assert(escape.skip(3) =~= rest);
    assert((seq![b] + rest).skip(1) =~= rest);
    assert((seq![0x25u8, high] + rest).skip(1) =~= seq![high] + rest);
}

/// A name that the server gives comes first. Without one it is what stands behind the last slash of
/// the URL's path, where that has no escapes; where nothing stands there, or there is no path, it
/// is `download`.
pub proof fn name_is_chosen_in_order(
    header: Seq<char>,
    path: Option<Seq<char>>,
    dir: Seq<char>,
    name: Seq<char>,
)
    requires
        !name.contains('/'),
        !name.contains('%'),
    ensures
        disposition_name(header) is Some ==> chosen_name(Some(header), path) == disposition_name(
            header,
        )->0,
        disposition_name(header) is None ==> chosen_name(Some(header), path) == chosen_name(
            None,
            path,
        ),
        name.len() > 0 ==> chosen_name(None, Some(seq!['/'] + dir + seq!['/'] + name)) == name,
        name.len() > 0 ==> chosen_name(None, Some(seq!['/'] + name)) == name,
        chosen_name(None, Some(seq!['/'] + dir + seq!['/'])) == "download"@,
        chosen_name(None, Some(seq!['/'])) == "download"@,
        chosen_name(None, None) == "download"@,
        path is Some && path->0.len() > 0 && path->0[0] != '/' ==> chosen_name(None, path)
            == "download"@,
{
    reveal_strlit("/");
    let long = seq!['/'] + dir + seq!['/'] + name;
    let tail = dir + seq!['/'] + name;
    assert(long.skip(1) =~= tail);
    let from = dir.len() as int + 1;
    assert forall|j: int| from <= j < tail.len() implies tail[j] != '/' by {
        assert(tail[j] == name[j - from]);
        assert(name.contains(name[j - from]));
    }
    text::after_last_is_suffix(tail, '/', from);
    assert(tail.skip(from) =~= name);
    let short = seq!['/'] + name;
    assert(short.skip(1) =~= name);
    assert forall|j: int| 0 <= j < name.len() implies name[j] != '/' by {
        assert(name.contains(name[j]));
    }
    text::after_last_is_suffix(name, '/', 0);
    assert(name.skip(0) =~= name);
    unescaped_text_stays(name);
    assert(name != "/"@) by {
        if name == "/"@ {
            assert(name[0] == '/');
        }
    }
    let none = Seq::<char>::empty();
    unescaped_text_stays(none);
    let ending = seq!['/'] + dir + seq!['/'];
    assert(ending.skip(1) =~= dir + seq!['/']);
    assert((dir + seq!['/']).last() == '/');
    assert(text::after_last(dir + seq!['/'], '/') == none);
    assert(seq!['/'].skip(1) =~= none);
    assert(text::after_last(none, '/') == none);
}

/// The last segment of a path gives its decoding as the name, or itself where it has none; a
/// decoding that is nothing or a slash gives none.
pub proof fn last_segment_is_decoded(dir: Seq<char>, segment: Seq<char>)
    requires
        !segment.contains('/'),
    ensures
        ({
            let name = chosen_name(None, Some(seq!['/'] + dir + seq!['/'] + segment));
            &&& percent_decoded(segment) matches Some(text) ==> if text.len() == 0 || text
                == seq!['/'] {
                name == "download"@
            } else {
                name == text
            }
            &&& percent_decoded(segment) is None ==> name == segment
        }),
{
    reveal_strlit("/");
    let tail = dir + seq!['/'] + segment;
    assert((seq!['/'] + dir + seq!['/'] + segment).skip(1) =~= tail);
    let from = dir.len() as int + 1;
    assert forall|j: int| from <= j < tail.len() implies tail[j] != '/' by {
        assert(tail[j] == segment[j - from]);
        assert(segment.contains(segment[j - from]));
    }
    text::after_last_is_suffix(tail, '/', from);
    assert(tail.skip(from) =~= segment);
    assert("/"@ =~= seq!['/']);
    if segment.len() == 0 {
        unescaped_text_stays(segment);
    }
    if segment == "/"@ {
        assert(segment[0] == '/');
        assert(segment.contains('/'));
    }
}

} // verus!
