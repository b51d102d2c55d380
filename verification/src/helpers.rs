//! Small services of the compiler: escaping path segments, reading
//! identifiers out of a document, and the two ways an identifier's fragment is
//! read.

use crate::json::{Json, JsonValue, Member, MemberValue};
use crate::schema::{SchemaError, SchemaErrorModel};
use crate::text::{first_index, join, join_spec, push_char, starts_with_char, views};
use crate::uri::{url_fragment, url_joined, url_parsed, with_fragment_spec, without_fragment_spec, Uri};
use vstd::prelude::*;

verus! {

broadcast use {vstd::seq::group_seq_axioms, vstd::std_specs::vec::group_vec_axioms};

/// The hexadecimal digit, in upper case, for a value below sixteen.
pub open spec fn hex_digit(n: int) -> char {
    if n == 0 {
        '0'
    } else if n == 1 {
        '1'
    } else if n == 2 {
        '2'
    } else if n == 3 {
        '3'
    } else if n == 4 {
        '4'
    } else if n == 5 {
        '5'
    } else if n == 6 {
        '6'
    } else if n == 7 {
        '7'
    } else if n == 8 {
        '8'
    } else if n == 9 {
        '9'
    } else if n == 10 {
        'A'
    } else if n == 11 {
        'B'
    } else if n == 12 {
        'C'
    } else if n == 13 {
        'D'
    } else if n == 14 {
        'E'
    } else {
        'F'
    }
}

/// The bytes that are not written as themselves in a path segment: what is
/// no printable ASCII, and the space, `"`, `#`, `<` and `>`.
pub open spec fn is_percent_encoded(b: u8) -> bool {
    b < 0x20 || b > 0x7E || b == 0x20 || b == 0x22 || b == 0x23 || b == 0x3C || b == 0x3E
}

/// How one byte is written: a `%` and its two hexadecimal digits where it is
/// not written as itself.
pub open spec fn percent_encoded_byte(b: u8) -> Seq<char> {
    if is_percent_encoded(b) {
        seq!['%', hex_digit(b as int / 16), hex_digit(b as int % 16)]
    } else {
        seq![b as char]
    }
}

/// The bytes `bytes`, each written as `percent_encoded_byte` says.
pub open spec fn percent_encoded(bytes: Seq<u8>) -> Seq<char>
    decreases bytes.len(),
{
    if bytes.len() == 0 {
        Seq::empty()
    } else {
        percent_encoded(bytes.drop_last()) + percent_encoded_byte(bytes.last())
    }
}

/// Calls `url::percent_encoding::percent_encode` with `QUERY_ENCODE_SET` and
/// collects what it yields into a string: each byte of that set as a `%` and
/// its two hexadecimal digits in upper case, every other byte as it is.
#[verifier::external_body]
fn percent_encode_query(input: &[u8]) -> (r: String)
    ensures
        r@ == percent_encoded(input@),
{
    url::percent_encoding::percent_encode(input, url::percent_encoding::QUERY_ENCODE_SET).to_string()
}

/// A digit or one of the letters `a` to `f`.
pub open spec fn is_lower_hex(c: char) -> bool {
    ('0' <= c && c <= '9') || ('a' <= c && c <= 'f')
}

/// The shape in which a random identifier is written: thirty-two hexadecimal
/// digits in lower case, in groups of eight, four, four, four and twelve with
/// a `-` between them.
pub open spec fn is_uuid_text(t: Seq<char>) -> bool {
    &&& t.len() == 36
    &&& forall|i: int|
        0 <= i < 36 ==> if i == 8 || i == 13 || i == 18 || i == 23 {
            #[trigger] t[i] == '-'
        } else {
            is_lower_hex(t[i])
        }
}

/// Calls `uuid::Uuid::new_v4` and writes the random identifier out as
/// `Display` of the `uuid` crate does. Which identifier comes is left to
/// chance; only its shape is known. The call ends the program where the
/// system has no random bytes to give.
#[verifier::external_body]
fn random_uuid_text() -> (r: String)
    ensures
        is_uuid_text(r@),
{
    uuid::Uuid::new_v4().to_string()
}

/// How one character is written in a path segment: `~` as `~0`, `/` as `~1`,
/// `%` as `%25`, any other as itself.
pub open spec fn escape_char(c: char) -> Seq<char> {
    if c == '~' {
        seq!['~', '0']
    } else if c == '/' {
        seq!['~', '1']
    } else if c == '%' {
        seq!['%', '2', '5']
    } else {
        seq![c]
    }
}

/// A text with each character written as `escape_char` says.
pub open spec fn escape_pointer(s: Seq<char>) -> Seq<char>
    decreases s.len(),
{
    if s.len() == 0 {
        Seq::empty()
    } else {
        escape_pointer(s.drop_last()) + escape_char(s.last())
    }
}

/// A key as a path segment: escaped, then its bytes percent-encoded.
pub open spec fn encode_spec(s: Seq<char>) -> Seq<char> {
    percent_encoded(vstd::utf8::encode_utf8(escape_pointer(s)))
}

/// The segments of `strings`, with `/` between them.
pub open spec fn connect_spec(strings: Seq<Seq<char>>) -> Seq<char> {
    join_spec(strings.map_values(|s: Seq<char>| encode_spec(s)), "/"@)
}

/// The base and the path that an identifier is looked up by, given the
/// identifier without its fragment, `base`, and its fragment.
///
/// A fragment that begins with `/` is a path into a schema, and is handed out
/// as it is. Of any other fragment, what stands before its first `/` is a name
/// and belongs to the base, behind a `#`; what stands from that `/` on is the
/// path.
pub open spec fn split_fragment_spec(base: Seq<char>, fragment: Option<Seq<char>>) -> (
    Seq<char>,
    Option<Seq<char>>,
) {
    match fragment {
        Some(f) => if f.len() == 0 {
            (base, None)
        } else if f[0] == '/' {
            (base, Some(f))
        } else {
            let i = first_index(f, '/');
            (
                base + seq!['#'] + f.take(i),
                if i < f.len() {
                    Some(f.skip(i))
                } else {
                    None
                },
            )
        },
        None => (base, None),
    }
}

/// The base and the path that the identifier `uri` is looked up by: what
/// `split_fragment_spec` makes of the identifier without its fragment and of
/// its fragment.
pub open spec fn serialize_schema_path_spec(uri: Seq<char>) -> (Seq<char>, Option<Seq<char>>) {
    split_fragment_spec(without_fragment_spec(uri), url_fragment(uri))
}

/// A schema that is written as a boolean, written as an object: `true` as
/// `{}`, `false` as `{"not": {}}`. Any other value is itself.
pub open spec fn convert_boolean_schema_spec(val: JsonValue) -> JsonValue {
    match val {
        JsonValue::Bool(true) => JsonValue::Object(Seq::empty()),
        JsonValue::Bool(false) => JsonValue::Object(
            seq![MemberValue { key: "not"@, value: JsonValue::Object(Seq::empty()) }],
        ),
        _ => val,
    }
}

/// The text of the member `key` of `obj`, where that member is a string.
pub open spec fn string_member(obj: JsonValue, key: Seq<char>) -> Option<Seq<char>> {
    match obj.get(key) {
        Some(JsonValue::String(s)) => Some(s),
        _ => None,
    }
}

/// The identifier under `key`: none where `obj` has no string there, an error
/// where the string is no absolute URL.
pub open spec fn parse_url_key_spec(key: Seq<char>, obj: JsonValue) -> Result<
    Option<Seq<char>>,
    SchemaErrorModel,
> {
    match string_member(obj, key) {
        Some(s) => match url_parsed(s) {
            Some(u) => Ok(Some(u)),
            None => Err(SchemaErrorModel::UrlParseError),
        },
        None => Ok(None),
    }
}

/// As `parse_url_key_spec`, with the string read against `base`.
pub open spec fn parse_url_key_with_base_spec(
    key: Seq<char>,
    obj: JsonValue,
    base: Seq<char>,
) -> Result<Option<Seq<char>>, SchemaErrorModel> {
    match string_member(obj, key) {
        Some(s) => match url_joined(base, s) {
            Some(u) => Ok(Some(u)),
            None => Err(SchemaErrorModel::UrlParseError),
        },
        None => Ok(None),
    }
}

/// `path` without one `/` at its head.
pub open spec fn strip_slash(path: Seq<char>) -> Seq<char> {
    if path.len() > 0 && path[0] == '/' {
        path.skip(1)
    } else {
        path
    }
}

/// The fragment that addresses `path` below what `uri` addresses: behind the
/// name of `uri`'s fragment where it has one, from the root where it has none.
pub open spec fn altered_fragment(fragment: Option<Seq<char>>, path: Seq<char>) -> Seq<char> {
    let tail = seq!['/'] + strip_slash(path);
    match fragment {
        Some(f) => if f.len() > 0 && f[0] != '/' {
            f.take(first_index(f, '/')) + tail
        } else {
            tail
        },
        None => tail,
    }
}

/// The identifier of the node at `path` below what `uri` addresses.
pub open spec fn alter_fragment_path_spec(uri: Seq<char>, path: Seq<char>) -> Seq<char> {
    with_fragment_spec(uri, altered_fragment(url_fragment(uri), path))
}

/// The fragment that an identifier is looked up by begins with `/`.
pub proof fn lemma_fragment_is_path(uri: Seq<char>)
    ensures
        serialize_schema_path_spec(uri).1 matches Some(f) ==> f.len() > 0 && f[0] == '/',
{
    match url_fragment(uri) {
        Some(f) => {
            if f.len() > 0 && f[0] != '/' {
                crate::text::lemma_first_index(f, '/');
            }
        },
        None => {},
    }
}

/// Writes `string` as a path segment.
pub fn encode(string: &str) -> (r: String)
    ensures
        r@ == encode_spec(string@),
{
    let mut escaped = String::new();
    for c in it: string.chars()
        invariant
            it.seq() == string@,
            escaped@ == escape_pointer(string@.take(it.index())),
    {
        let ghost i = it.index();
        proof {
            assert(string@.take(i + 1).drop_last() == string@.take(i));
        }
        if c == '~' {
            push_char(&mut escaped, '~');
            push_char(&mut escaped, '0');
        } else if c == '/' {
            push_char(&mut escaped, '~');
            push_char(&mut escaped, '1');
        } else if c == '%' {
            push_char(&mut escaped, '%');
            push_char(&mut escaped, '2');
            push_char(&mut escaped, '5');
        } else {
            push_char(&mut escaped, c);
        }
        assert(escaped@ == escape_pointer(string@.take(i)) + escape_char(c));
    }
    assert(string@.take(string@.len() as int) == string@);
    percent_encode_query(escaped.as_str().as_bytes())
}

/// Whether no two of `members` are written as the same path segment.
pub open spec fn segments_differ(members: Seq<MemberValue>) -> bool {
    forall|i: int, j: int|
        #![trigger members[i], members[j]]
        0 <= i < j < members.len() ==> encode_spec(members[i].key)
            != encode_spec(members[j].key)
}

/// Whether each of the first `n` values directly below `v` is named once
/// throughout.
pub open spec fn parts_named_once(v: JsonValue, n: nat) -> bool
    decreases v, 0nat, n,
{
    if n == 0 {
        true
    } else {
        parts_named_once(v, (n - 1) as nat) && match v {
            JsonValue::Array(a) => n > a.len() || named_once(a[n - 1]),
            JsonValue::Object(m) => n > m.len() || named_once(m[n - 1].value),
            _ => true,
        }
    }
}

/// Whether `v` is named once throughout: no object in it, at whatever depth,
/// has two members that are written as the same path segment.
pub open spec fn named_once(v: JsonValue) -> bool
    decreases v, 1nat, 0nat,
{
    match v {
        JsonValue::Array(a) => parts_named_once(v, a.len()),
        JsonValue::Object(m) => segments_differ(m) && parts_named_once(v, m.len()),
        _ => true,
    }
}

/// What is named once throughout is so in each of its parts.
pub proof fn lemma_part_named_once(v: JsonValue, n: nat, i: int)
    requires
        parts_named_once(v, n),
        0 <= i < n,
    ensures
        v matches JsonValue::Array(a) ==> i < a.len() ==> named_once(a[i]),
        v matches JsonValue::Object(m) ==> i < m.len() ==> named_once(m[i].value),
    decreases n,
{
    if i < n - 1 {
        lemma_part_named_once(v, (n - 1) as nat, i);
    }
}

/// Where the first `n` parts are not all named once, more of them are not
/// either.
pub proof fn lemma_parts_named_twice(v: JsonValue, n: nat, m: nat)
    requires
        n <= m,
        !parts_named_once(v, n),
    ensures
        !parts_named_once(v, m),
    decreases m,
{
    if n < m {
        lemma_parts_named_twice(v, n, (m - 1) as nat);
    }
}

/// Whether `doc` is named once throughout: whether no object in it has two
/// members that are written as the same path segment.
#[verifier::loop_isolation(false)]
pub fn is_named_once(doc: &Json) -> (r: bool)
    ensures
        r == named_once(doc@),
    decreases doc,
{
    match doc {
        Json::Array(items) => {
            let ghost all = doc@.elements();
            let mut i: usize = 0;
            while i < items.len()
                invariant
                    i <= items.len(),
                    *doc == Json::Array(*items),
                    all == doc@.elements(),
                    all.len() == items.len(),
                    parts_named_once(doc@, i as nat),
                decreases items.len() - i,
            {
                assert(all[i as int] == items[i as int]@);
                if !is_named_once(&items[i]) {
                    proof {
                        assert(!parts_named_once(doc@, (i + 1) as nat));
                        lemma_parts_named_twice(doc@, (i + 1) as nat, all.len());
                    }
                    return false;
                }
                i = i + 1;
            }
            true
        },
        Json::Object(members) => {
            let ghost all = doc@.members();
            let mut segments: Vec<String> = Vec::new();
            let mut i: usize = 0;
            while i < members.len()
                invariant
                    i <= members.len(),
                    *doc == Json::Object(*members),
                    all == doc@.members(),
                    all.len() == members.len(),
                    segments.len() == i,
                    forall|j: int| 0 <= j < i ==> (#[trigger] segments[j])@ == encode_spec(all[j].key),
                    forall|a: int, b: int|
                        #![trigger segments[a], segments[b]]
                        0 <= a < b < i ==> segments[a]@ != segments[b]@,
                decreases members.len() - i,
            {
                assert(all[i as int] == members[i as int]@);
                let segment = encode(members[i].key.as_str());
                let mut j: usize = 0;
                while j < i
                    invariant
                        j <= i,
                        i < members.len(),
                        segments.len() == i,
                        forall|a: int| 0 <= a < j ==> (#[trigger] segments[a])@ != segment@,
                    decreases i - j,
                {
                    if crate::text::str_eq(segments[j].as_str(), segment.as_str()) {
                        proof {
                            assert(all[j as int] == all[j as int]);
                            assert(encode_spec(all[j as int].key) == encode_spec(all[i as int].key));
                            assert(!segments_differ(all));
                        }
                        return false;
                    }
                    j = j + 1;
                }
                segments.push(segment);
                i = i + 1;
            }
            assert(segments_differ(all)) by {
                assert forall|a: int, b: int|
                    #![trigger all[a], all[b]]
                    0 <= a < b < all.len() implies encode_spec(all[a].key) != encode_spec(
                    all[b].key,
                ) by {
                    assert(segments[a]@ != segments[b]@);
                }
            }
            let mut k: usize = 0;
            while k < members.len()
                invariant
                    k <= members.len(),
                    *doc == Json::Object(*members),
                    all == doc@.members(),
                    all.len() == members.len(),
                    segments_differ(all),
                    parts_named_once(doc@, k as nat),
                decreases members.len() - k,
            {
                assert(all[k as int] == members[k as int]@);
                if !is_named_once(&members[k].value) {
                    proof {
                        assert(!parts_named_once(doc@, (k + 1) as nat));
                        lemma_parts_named_twice(doc@, (k + 1) as nat, all.len());
                    }
                    return false;
                }
                k = k + 1;
            }
            true
        },
        _ => true,
    }
}

/// Writes each of `strings` as a path segment and joins them with `/`.
pub fn connect(strings: &[&str]) -> (r: String)
    ensures
        r@ == connect_spec(strings@.map_values(|s: &str| s@)),
{
    let ghost texts = strings@.map_values(|s: &str| s@);
    let mut parts: Vec<String> = Vec::new();
    let mut i: usize = 0;
    while i < strings.len()
        invariant
            i <= strings.len(),
            texts == strings@.map_values(|s: &str| s@),
            views(parts@) == texts.map_values(|s: Seq<char>| encode_spec(s)).take(i as int),
        decreases strings.len() - i,
    {
        let ghost before = parts@;
        let part = encode(strings[i]);
        parts.push(part);
        proof {
            let encoded = texts.map_values(|s: Seq<char>| encode_spec(s));
            assert(views(parts@) == views(before).push(part@));
            assert(encoded.take(i + 1) == encoded.take(i as int).push(encoded[i as int]));
        }
        i = i + 1;
    }
    assert(views(parts@) == texts.map_values(|s: Seq<char>| encode_spec(s)));
    join(&parts, "/")
}

/// A fresh identifier for a document that names none: what `id_from_uuid`
/// makes of a random identifier. Which random identifier it is made of is
/// left to chance; it comes exactly where that one is read as a URL.
pub fn generate_id() -> (r: Result<Uri, url::ParseError>)
    ensures
        exists|t: Seq<char>| is_uuid_text(t) && id_view(r) == #[trigger] id_from_uuid_spec(t),
{
    let uuid = random_uuid_text();
    id_from_uuid(uuid.as_str())
}

/// What is read as a URL where `json-schema://` stands before the random
/// identifier `uuid`; nothing where that text is refused.
pub open spec fn id_from_uuid_spec(uuid: Seq<char>) -> Option<Seq<char>> {
    url_parsed("json-schema://"@ + uuid)
}

/// The text of the identifier that came, or nothing where none came.
pub open spec fn id_view(r: Result<Uri, url::ParseError>) -> Option<Seq<char>> {
    match r {
        Ok(u) => Some(u@),
        Err(_) => None,
    }
}

/// The identifier that is made of the random identifier `uuid`: the URL that
/// `json-schema://` and `uuid` are read as. It fails exactly where that text
/// is refused as a URL.
pub fn id_from_uuid(uuid: &str) -> (r: Result<Uri, url::ParseError>)
    ensures
        id_view(r) == id_from_uuid_spec(uuid@),
{
    let mut text = "json-schema://".to_string();
    text.append(uuid);
    Uri::parse(text.as_str())
}

/// Reads the identifier under `key`.
pub fn parse_url_key(key: &str, obj: &Json) -> (r: Result<Option<Uri>, SchemaError>)
    ensures
        uri_result_view(r) == parse_url_key_spec(key@, obj@),
{
    match obj.get(key) {
        Some(value) => match value.as_str() {
            Some(string) => match Uri::parse(string) {
                Ok(u) => Ok(Some(u)),
                Err(e) => Err(SchemaError::UrlParseError(e)),
            },
            None => Ok(None),
        },
        None => Ok(None),
    }
}

/// Reads the identifier under `key`, which may be relative to `base`.
pub fn parse_url_key_with_base(key: &str, obj: &Json, base: &Uri) -> (r: Result<
    Option<Uri>,
    SchemaError,
>)
    ensures
        uri_result_view(r) == parse_url_key_with_base_spec(key@, obj@, base@),
{
    match obj.get(key) {
        Some(value) => match value.as_str() {
            Some(string) => match base.join(string) {
                Ok(u) => Ok(Some(u)),
                Err(e) => Err(SchemaError::UrlParseError(e)),
            },
            None => Ok(None),
        },
        None => Ok(None),
    }
}

/// The model of what reading an identifier gave.
pub open spec fn uri_result_view(r: Result<Option<Uri>, SchemaError>) -> Result<
    Option<Seq<char>>,
    SchemaErrorModel,
> {
    match r {
        Ok(Some(u)) => Ok(Some(u@)),
        Ok(None) => Ok(None),
        Err(e) => Err(e@),
    }
}

/// The model of a text that may be absent.
pub open spec fn option_view(s: Option<String>) -> Option<Seq<char>> {
    match s {
        Some(s) => Some(s@),
        None => None,
    }
}

/// The model of an identifier that may be absent.
pub open spec fn option_uri_view(u: Option<Uri>) -> Option<Seq<char>> {
    match u {
        Some(u) => Some(u@),
        None => None,
    }
}

/// Copies `s` up to its first `/` into `head` and from there on into `tail`.
fn cut_at_slash(s: &str) -> (r: (String, String))
    ensures
        r.0@ == s@.take(first_index(s@, '/')),
        r.1@ == s@.skip(first_index(s@, '/')),
{
    let mut head = String::new();
    let mut tail = String::new();
    let mut found = false;
    for c in it: s.chars()
        invariant
            it.seq() == s@,
            0 <= it.index() <= s@.len(),
            !found ==> head@ == s@.take(it.index()) && tail@.len() == 0 && !head@.contains('/'),
            found ==> head@ == s@.take(first_index(s@, '/')) && tail@ == s@.subrange(
                first_index(s@, '/'),
                it.index(),
            ) && first_index(s@, '/') < it.index(),
    {
        let ghost i = it.index();
        let ghost before = head@;
        if !found && c == '/' {
            found = true;
            proof {
                assert forall|j: int| 0 <= j < i implies s@[j] != '/' by {
                    assert(head@[j] == s@[j]);
                    assert(head@.contains(head@[j]));
                }
                crate::text::lemma_first_index_is(s@, '/', i);
            }
        }
        if found {
            let ghost tail_before = tail@;
            push_char(&mut tail, c);
            proof {
                let k = first_index(s@, '/');
                crate::text::lemma_first_index(s@, '/');
                assert(c == s@[i]);
                assert(tail_before =~= s@.subrange(k, i));
                assert(tail@ =~= s@.subrange(k, i + 1));
            }
        } else {
            push_char(&mut head, c);
            proof {
                assert(head@ == s@.take(i + 1));
                assert forall|j: int| 0 <= j < head@.len() implies head@[j] != '/' by {
                    if j < before.len() {
                        assert(before.contains(before[j]));
                    }
                }
            }
        }
    }
    proof {
        if !found {
            assert forall|j: int| 0 <= j < s@.len() implies s@[j] != '/' by {
                assert(head@[j] == s@[j]);
                assert(head@.contains(head@[j]));
            }
            crate::text::lemma_first_index_is(s@, '/', s@.len() as int);
            assert(s@.take(s@.len() as int) == s@);
        }
        crate::text::lemma_first_index(s@, '/');
    }
    (head, tail)
}

/// The base and the path that an identifier is looked up by, given the
/// identifier without its fragment, `base`, and its fragment.
pub fn split_fragment(base: String, fragment: Option<String>) -> (r: (String, Option<String>))
    ensures
        (r.0@, option_view(r.1)) == split_fragment_spec(base@, option_view(fragment)),
{
    let mut url_str = base;
    match fragment {
        Some(fragment) => {
            if fragment.as_str().is_empty() {
                (url_str, None)
            } else if starts_with_char(fragment.as_str(), '/') {
                (url_str, Some(fragment))
            } else {
                let (name, path) = cut_at_slash(fragment.as_str());
                proof {
                    crate::text::lemma_first_index(fragment@, '/');
                }
                push_char(&mut url_str, '#');
                url_str.append(name.as_str());
                if path.as_str().is_empty() {
                    (url_str, None)
                } else {
                    (url_str, Some(path))
                }
            }
        },
        None => (url_str, None),
    }
}

/// Splits an identifier into the base and the path that it is looked up by.
pub fn serialize_schema_path(url: &Uri) -> (r: (String, Option<String>))
    ensures
        (r.0@, option_view(r.1)) == serialize_schema_path_spec(url@),
{
    split_fragment(url.without_fragment().into_string(), url.fragment())
}

/// Writes a schema that is a boolean as an object.
pub fn convert_boolean_schema(val: Json) -> (r: Json)
    ensures
        r@ == convert_boolean_schema_spec(val@),
{
    match val.as_bool() {
        Some(b) => {
            if b {
                Json::empty_object()
            } else {
                let mut members: Vec<Member> = Vec::new();
                members.push(Member { key: "not".to_string(), value: Json::empty_object() });
                let r = Json::Object(members);
                assert(r@.members() =~= seq![
                    MemberValue { key: "not"@, value: JsonValue::Object(Seq::empty()) },
                ]);
                r
            }
        },
        None => val,
    }
}

/// The fragment that addresses `path` below what an identifier with the
/// fragment `fragment` addresses.
pub fn alter_fragment(fragment: Option<String>, path: &str) -> (r: String)
    ensures
        r@ == altered_fragment(option_view(fragment), path@),
{
    let new_fragment = path;
    let mut result = String::new();
    match fragment {
        Some(fragment) => {
            if !fragment.as_str().is_empty() && !starts_with_char(fragment.as_str(), '/') {
                let (name, _) = cut_at_slash(fragment.as_str());
                result = name;
            }
        },
        None => {},
    }
    let ghost name = result@;
    push_char(&mut result, '/');
    if starts_with_char(new_fragment, '/') {
        let (_, rest) = cut_once(new_fragment);
        result.append(rest.as_str());
    } else {
        result.append(new_fragment);
    }
    proof {
        let tail = seq!['/'] + strip_slash(new_fragment@);
        assert(result@ == name + tail);
        assert(Seq::<char>::empty() + tail == tail);
    }
    result
}

/// The identifier of the node at `new_fragment` below what `url` addresses.
pub fn alter_fragment_path(url: Uri, new_fragment: String) -> (r: Uri)
    ensures
        r@ == alter_fragment_path_spec(url@, new_fragment@),
{
    let fragment = alter_fragment(url.fragment(), new_fragment.as_str());
    url.with_fragment(fragment.as_str())
}

/// The first character of `s` and what follows it.
fn cut_once(s: &str) -> (r: (String, String))
    requires
        s@.len() > 0,
    ensures
        r.0@ == s@.take(1),
        r.1@ == s@.skip(1),
{
    let mut head = String::new();
    let mut tail = String::new();
    let mut first = true;
    for c in it: s.chars()
        invariant
            it.seq() == s@,
            first <==> it.index() == 0,
            first ==> head@.len() == 0 && tail@.len() == 0,
            !first ==> head@ == s@.take(1) && tail@ == s@.subrange(1, it.index()),
    {
        if first {
            push_char(&mut head, c);
            first = false;
        } else {
            push_char(&mut tail, c);
        }
    }
    (head, tail)
}

} // verus!
