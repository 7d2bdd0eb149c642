//! Percent-encoding of URL components and the GitLab API endpoints.

use vstd::prelude::*;
use crate::text::{decimal, digit_char, u64_to_decimal};

verus! {

/// Bytes that percent-encoding leaves alone: ASCII letters and digits, `-`, `.`, `_`, `~`.
pub open spec fn is_unreserved_byte(b: u8) -> bool {
    ||| 0x30 <= b <= 0x39
    ||| 0x41 <= b <= 0x5a
    ||| 0x61 <= b <= 0x7a
    ||| b == 0x2d
    ||| b == 0x2e
    ||| b == 0x5f
    ||| b == 0x7e
}

/// Characters that may appear in a percent-encoded component: the unreserved
/// characters and `%`.
pub open spec fn is_encoded_char(c: char) -> bool {
    ||| '0' <= c <= '9'
    ||| 'A' <= c <= 'Z'
    ||| 'a' <= c <= 'z'
    ||| c == '-'
    ||| c == '.'
    ||| c == '_'
    ||| c == '~'
    ||| c == '%'
}

/// The upper-case hexadecimal digit of `d`, for `0 <= d < 16`.
pub open spec fn hex_upper(d: int) -> char {
    if d < 10 {
        digit_char(d)
    } else {
        (('A' as int) + d - 10) as char
    }
}

/// How one byte is written: unreserved bytes as themselves, any other as `%XX`.
pub open spec fn percent_encode_byte(b: u8) -> Seq<char> {
    if is_unreserved_byte(b) {
        seq![b as char]
    } else {
        seq!['%', hex_upper((b / 16) as int), hex_upper((b % 16) as int)]
    }
}

/// Percent-encoding of a byte string, byte by byte.
pub open spec fn percent_encode(bytes: Seq<u8>) -> Seq<char>
    decreases bytes.len(),
{
    if bytes.len() == 0 {
        Seq::empty()
    } else {
        percent_encode(bytes.drop_last()) + percent_encode_byte(bytes.last())
    }
}

/// Percent-encoding of a text: of the bytes of its UTF-8 encoding.
pub open spec fn encoded(s: Seq<char>) -> Seq<char> {
    percent_encode(vstd::utf8::encode_utf8(s))
}

/// Percent-encodes a URL component with `urlencoding::encode`.
///
/// Trusted: the crate's source (`encode_into` in `enc.rs`) writes each byte of the
/// UTF-8 encoding of its input in turn, unreserved bytes (ASCII letters and digits,
/// `-`, `.`, `_`, `~`) as they are and every other byte as `%` followed by two
/// upper-case hexadecimal digits; the contract states exactly that.
#[verifier::external_body]
fn encode_component(s: &str) -> (r: String)
    ensures
        r@ == encoded(s@),
{
    urlencoding::encode(s).into_owned()
}

/// Encodes a project ID or path (`group/project`) as a single path segment.
pub fn encode_project(project: &str) -> (r: String)
    ensures
        r@ == encoded(project@),
{
    encode_component(project)
}

proof fn lemma_hex_upper(d: int)
    requires
        0 <= d < 16,
    ensures
        is_encoded_char(hex_upper(d)),
{
}

proof fn lemma_percent_encode_byte(b: u8)
    ensures
        forall|i: int|
            0 <= i < percent_encode_byte(b).len() ==> #[trigger] is_encoded_char(
                percent_encode_byte(b)[i],
            ),
{
    lemma_hex_upper((b / 16) as int);
    lemma_hex_upper((b % 16) as int);
}

/// Every character of a percent-encoded text is unreserved or `%`: in
/// particular an encoded component holds no `/`, `?`, `&`, `=` or `#`, so it
/// cannot change the structure of the URL it is put in.
pub proof fn lemma_percent_encode_alphabet(bytes: Seq<u8>)
    ensures
        forall|i: int|
            0 <= i < percent_encode(bytes).len() ==> #[trigger] is_encoded_char(
                percent_encode(bytes)[i],
            ),
    decreases bytes.len(),
{
    if bytes.len() > 0 {
        lemma_percent_encode_alphabet(bytes.drop_last());
        lemma_percent_encode_byte(bytes.last());
        let a = percent_encode(bytes.drop_last());
        let b = percent_encode_byte(bytes.last());
        assert forall|i: int| 0 <= i < (a + b).len() implies #[trigger] is_encoded_char(
            (a + b)[i],
        ) by {
            if i < a.len() {
                assert((a + b)[i] == a[i]);
            } else {
                assert((a + b)[i] == b[i - a.len()]);
            }
        }
    }
}

/// An encoded component holds none of the characters that delimit the parts of
/// a URL, so a project path such as `group/project` stays one path segment and
/// a branch name cannot add query parameters.
pub proof fn lemma_encoded_has_no_delimiter(s: Seq<char>)
    ensures
        !encoded(s).contains('/'),
        !encoded(s).contains('?'),
        !encoded(s).contains('&'),
        !encoded(s).contains('='),
        !encoded(s).contains('#'),
{
    lemma_percent_encode_alphabet(vstd::utf8::encode_utf8(s));
    let e = encoded(s);
    assert forall|i: int| 0 <= i < e.len() implies e[i] != '/' && e[i] != '?' && e[i] != '&'
        && e[i] != '=' && e[i] != '#' by {
        assert(is_encoded_char(e[i]));
    }
}

proof fn lemma_percent_encode_concat(a: Seq<u8>, b: Seq<u8>)
    ensures
        percent_encode(a + b) == percent_encode(a) + percent_encode(b),
    decreases b.len(),
{
    if b.len() == 0 {
        assert(a + b =~= a);
        assert(percent_encode(a) + percent_encode(b) =~= percent_encode(a));
    } else {
        lemma_percent_encode_concat(a, b.drop_last());
        assert((a + b).drop_last() =~= a + b.drop_last());
        assert((a + b).last() == b.last());
        assert(percent_encode(a) + percent_encode(b) =~= percent_encode(a) + percent_encode(
            b.drop_last(),
        ) + percent_encode_byte(b.last()));
    }
}

proof fn lemma_percent_encode_front(bytes: Seq<u8>)
    requires
        bytes.len() > 0,
    ensures
        percent_encode(bytes) == percent_encode_byte(bytes[0]) + percent_encode(bytes.drop_first()),
{
    let head = seq![bytes[0]];
    assert(head + bytes.drop_first() =~= bytes);
    lemma_percent_encode_concat(head, bytes.drop_first());
    assert(head.drop_last() =~= Seq::<u8>::empty());
    assert(percent_encode(Seq::<u8>::empty()) == Seq::<char>::empty());
    assert(head.last() == bytes[0]);
    assert(percent_encode(head) == percent_encode(head.drop_last()) + percent_encode_byte(head.last()));
    assert(percent_encode(head) =~= percent_encode_byte(bytes[0]));
}

proof fn lemma_hex_upper_injective(a: int, b: int)
    requires
        0 <= a < 16,
        0 <= b < 16,
        hex_upper(a) == hex_upper(b),
    ensures
        a == b,
{
    assert(hex_upper(a) as int == if a < 10 { '0' as int + a } else { 'A' as int + a - 10 });
    assert(hex_upper(b) as int == if b < 10 { '0' as int + b } else { 'A' as int + b - 10 });
}

proof fn lemma_percent_encode_byte_injective(a: u8, b: u8, rest_a: Seq<char>, rest_b: Seq<char>)
    requires
        percent_encode_byte(a) + rest_a == percent_encode_byte(b) + rest_b,
    ensures
        a == b,
        rest_a == rest_b,
{
    let ea = percent_encode_byte(a);
    let eb = percent_encode_byte(b);
    let whole = ea + rest_a;
    assert(whole[0] == ea[0]);
    assert((eb + rest_b)[0] == eb[0]);
    if is_unreserved_byte(a) {
        assert(ea[0] != '%');
        assert(is_unreserved_byte(b));
        assert(ea[0] == a as char);
        assert(eb[0] == b as char);
        assert((a as char) as u8 == a);
        assert((b as char) as u8 == b);
    } else {
        assert(!is_unreserved_byte(b)) by {
            if is_unreserved_byte(b) {
                assert(eb[0] == b as char);
                assert((b as char) as u8 == b);
            }
        }
        assert(whole[1] == (eb + rest_b)[1]);
        assert(whole[2] == (eb + rest_b)[2]);
        lemma_hex_upper_injective((a / 16) as int, (b / 16) as int);
        lemma_hex_upper_injective((a % 16) as int, (b % 16) as int);
    }
    assert(ea == eb);
    assert(rest_a =~= whole.skip(ea.len() as int));
    assert(rest_b =~= (eb + rest_b).skip(eb.len() as int));
}

proof fn lemma_percent_encode_injective(a: Seq<u8>, b: Seq<u8>)
    requires
        percent_encode(a) == percent_encode(b),
    ensures
        a == b,
    decreases a.len(),
{
    if a.len() == 0 {
        assert(percent_encode(a) == Seq::<char>::empty());
        if b.len() > 0 {
            lemma_percent_encode_front(b);
            assert(percent_encode(b).len() > 0);
        }
        assert(a =~= b);
    } else if b.len() == 0 {
        assert(percent_encode(b) == Seq::<char>::empty());
        lemma_percent_encode_front(a);
        assert(percent_encode(a).len() > 0);
    } else {
        lemma_percent_encode_front(a);
        lemma_percent_encode_front(b);
        lemma_percent_encode_byte_injective(
            a[0],
            b[0],
            percent_encode(a.drop_first()),
            percent_encode(b.drop_first()),
        );
        lemma_percent_encode_injective(a.drop_first(), b.drop_first());
        assert(a =~= seq![a[0]] + a.drop_first());
        assert(b =~= seq![b[0]] + b.drop_first());
    }
}

/// Percent-encoding is one-to-one: distinct project paths, branch names or
/// package names give distinct URL components, so a URL names one resource.
pub proof fn lemma_encoding_injective(s: Seq<char>, t: Seq<char>)
    requires
        encoded(s) == encoded(t),
    ensures
        s == t,
{
    broadcast use vstd::utf8::encode_utf8_decode_utf8;

    lemma_percent_encode_injective(vstd::utf8::encode_utf8(s), vstd::utf8::encode_utf8(t));
    assert(vstd::utf8::decode_utf8(vstd::utf8::encode_utf8(s)) == s);
    assert(vstd::utf8::decode_utf8(vstd::utf8::encode_utf8(t)) == t);
}

/// Whether `c` is a hexadecimal digit, in either case.
pub open spec fn is_hex_char(c: char) -> bool {
    ||| '0' <= c <= '9'
    ||| 'A' <= c <= 'F'
    ||| 'a' <= c <= 'f'
}

/// The value of the hexadecimal digit `c`.
pub open spec fn hex_value(c: char) -> int {
    if '0' <= c <= '9' {
        (c as int) - ('0' as int)
    } else if 'A' <= c <= 'F' {
        (c as int) - ('A' as int) + 10
    } else {
        (c as int) - ('a' as int) + 10
    }
}

/// Percent-decoding: each `%` followed by two hexadecimal digits is the byte
/// they write, and every other character stands for its UTF-8 bytes.
pub open spec fn percent_decode(s: Seq<char>) -> Seq<u8>
    decreases s.len(),
{
    if s.len() == 0 {
        Seq::empty()
    } else if s[0] == '%' && s.len() >= 3 && is_hex_char(s[1]) && is_hex_char(s[2]) {
        seq![(hex_value(s[1]) * 16 + hex_value(s[2])) as u8] + percent_decode(s.skip(3))
    } else {
        vstd::utf8::encode_utf8(seq![s[0]]) + percent_decode(s.drop_first())
    }
}

proof fn lemma_hex_upper_value(d: int)
    requires
        0 <= d < 16,
    ensures
        is_hex_char(hex_upper(d)),
        hex_value(hex_upper(d)) == d,
{
}

/// Percent-decoding undoes percent-encoding, byte for byte.
pub proof fn lemma_percent_decode_encode(bytes: Seq<u8>)
    ensures
        percent_decode(percent_encode(bytes)) == bytes,
    decreases bytes.len(),
{
    broadcast use vstd::utf8::is_ascii_chars_encode_utf8;

    if bytes.len() == 0 {
        assert(percent_encode(bytes) == Seq::<char>::empty());
    } else {
        let b = bytes[0];
        let rest = bytes.drop_first();
        lemma_percent_encode_front(bytes);
        lemma_percent_decode_encode(rest);
        let head = percent_encode_byte(b);
        let e = head + percent_encode(rest);
        if is_unreserved_byte(b) {
            assert(e[0] == b as char);
            assert(e.drop_first() =~= percent_encode(rest));
            let c = seq![b as char];
            assert(vstd::utf8::is_ascii_chars(c));
            assert(vstd::utf8::encode_utf8(c)[0] == b);
            assert(vstd::utf8::encode_utf8(c) =~= seq![b]);
        } else {
            lemma_hex_upper_value((b / 16) as int);
            lemma_hex_upper_value((b % 16) as int);
            assert(e[0] == '%');
            assert(e[1] == hex_upper((b / 16) as int));
            assert(e[2] == hex_upper((b % 16) as int));
            assert(e.skip(3) =~= percent_encode(rest));
            assert(((b / 16) as int) * 16 + ((b % 16) as int) == b);
        }
        assert(seq![b] + rest =~= bytes);
    }
}

/// Percent-decoding an encoded component gives back its text: decoding the
/// encoded project path gives the project path, and so for every component.
pub proof fn lemma_decode_encoded(s: Seq<char>)
    ensures
        percent_decode(encoded(s)) == vstd::utf8::encode_utf8(s),
        vstd::utf8::decode_utf8(percent_decode(encoded(s))) == s,
{
    broadcast use vstd::utf8::encode_utf8_decode_utf8;

    lemma_percent_decode_encode(vstd::utf8::encode_utf8(s));
}

/// Whether every character of `s` is an unreserved ASCII character.
pub open spec fn all_unreserved(s: Seq<char>) -> bool {
    forall|i: int| 0 <= i < s.len() ==> #[trigger] is_encoded_char(s[i]) && s[i] != '%'
}

/// A text made only of unreserved characters is encoded as itself.
pub proof fn lemma_encode_unreserved(s: Seq<char>)
    requires
        all_unreserved(s),
    ensures
        encoded(s) == s,
    decreases s.len(),
{
    broadcast use vstd::utf8::is_ascii_chars_encode_utf8;

    assert(vstd::utf8::is_ascii_chars(s)) by {
        assert forall|i: int| 0 <= i < s.len() implies '\0' <= #[trigger] s[i] <= '\u{7f}' by {
            assert(is_encoded_char(s[i]));
        }
    }
    let bytes = vstd::utf8::encode_utf8(s);
    lemma_encode_unreserved_bytes(s, bytes);
}

proof fn lemma_encode_unreserved_bytes(s: Seq<char>, bytes: Seq<u8>)
    requires
        all_unreserved(s),
        bytes.len() == s.len(),
        forall|i: int| 0 <= i < s.len() ==> #[trigger] bytes[i] == s[i] as u8,
    ensures
        percent_encode(bytes) == s,
    decreases s.len(),
{
    if s.len() > 0 {
        let s0 = s.drop_last();
        let b0 = bytes.drop_last();
        assert(all_unreserved(s0)) by {
            assert forall|i: int| 0 <= i < s0.len() implies #[trigger] is_encoded_char(s0[i])
                && s0[i] != '%' by {
                assert(is_encoded_char(s[i]));
            }
        }
        assert forall|i: int| 0 <= i < s0.len() implies #[trigger] b0[i] == s0[i] as u8 by {
            assert(bytes[i] == s[i] as u8);
        }
        lemma_encode_unreserved_bytes(s0, b0);
        let c = s.last();
        assert(is_encoded_char(s[s.len() - 1]));
        assert(is_encoded_char(c) && c != '%');
        assert(bytes.last() == c as u8);
        assert(is_unreserved_byte(c as u8));
        assert((c as u8) as char == c);
        assert(percent_encode(bytes) =~= s);
    }
}

/// `{api}/projects/{project}`, the root of every project endpoint.
pub open spec fn project_root(api_url: Seq<char>, project: Seq<char>) -> Seq<char> {
    api_url + "/projects/"@ + encoded(project)
}

/// The latest pipeline of a branch or tag.
pub open spec fn pipelines_by_ref_url_spec(api_url: Seq<char>, project: Seq<char>, git_ref: Seq<char>) -> Seq<char> {
    project_root(api_url, project) + "/pipelines?ref="@ + encoded(git_ref)
        + "&per_page=1&order_by=id&sort=desc"@
}

/// The latest pipeline of a commit.
pub open spec fn pipelines_by_sha_url_spec(api_url: Seq<char>, project: Seq<char>, sha: Seq<char>) -> Seq<char> {
    project_root(api_url, project) + "/pipelines?sha="@ + encoded(sha)
        + "&per_page=1&order_by=id&sort=desc"@
}

/// The jobs of a pipeline (first page of one hundred).
pub open spec fn pipeline_jobs_url_spec(api_url: Seq<char>, project: Seq<char>, pipeline_id: u64) -> Seq<char> {
    project_root(api_url, project) + "/pipelines/"@ + decimal(pipeline_id as nat)
        + "/jobs?per_page=100"@
}

/// `{root}/jobs/{job_id}{action}`.
pub open spec fn job_url_spec(api_url: Seq<char>, project: Seq<char>, job_id: u64, action: Seq<char>) -> Seq<char> {
    project_root(api_url, project) + "/jobs/"@ + decimal(job_id as nat) + action
}

/// A file of a generic package.
pub open spec fn package_file_url_spec(
    api_url: Seq<char>,
    project: Seq<char>,
    name: Seq<char>,
    version: Seq<char>,
    file_name: Seq<char>,
) -> Seq<char> {
    project_root(api_url, project) + "/packages/generic/"@ + encoded(name) + "/"@ + encoded(
        version,
    ) + "/"@ + encoded(file_name)
}

/// The packages of a project, newest version first, optionally of one name only.
pub open spec fn packages_url_spec(api_url: Seq<char>, project: Seq<char>, name: Option<Seq<char>>) -> Seq<char> {
    let base = project_root(api_url, project) + "/packages?per_page=100&order_by=version&sort=desc"@;
    match name {
        Some(n) => base + "&package_name="@ + encoded(n),
        None => base,
    }
}

/// One package.
pub open spec fn package_url_spec(api_url: Seq<char>, project: Seq<char>, package_id: u64) -> Seq<char> {
    project_root(api_url, project) + "/packages/"@ + decimal(package_id as nat)
}

/// The GraphQL endpoint, next to the REST API root.
pub open spec fn graphql_url_spec(api_url: Seq<char>) -> Seq<char> {
    api_url + "/../graphql"@
}

fn project_root_of(api_url: &str, project: &str) -> (r: String)
    ensures
        r@ == project_root(api_url@, project@),
{
    let mut u = String::from_str(api_url);
    u.append("/projects/");
    u.append(encode_project(project).as_str());
    u
}

/// URL of the latest pipeline of a branch or tag.
pub fn pipelines_by_ref_url(api_url: &str, project: &str, git_ref: &str) -> (r: String)
    ensures
        r@ == pipelines_by_ref_url_spec(api_url@, project@, git_ref@),
{
    let mut u = project_root_of(api_url, project);
    u.append("/pipelines?ref=");
    u.append(encode_component(git_ref).as_str());
    u.append("&per_page=1&order_by=id&sort=desc");
    u
}

/// URL of the latest pipeline of a commit.
pub fn pipelines_by_sha_url(api_url: &str, project: &str, sha: &str) -> (r: String)
    ensures
        r@ == pipelines_by_sha_url_spec(api_url@, project@, sha@),
{
    let mut u = project_root_of(api_url, project);
    u.append("/pipelines?sha=");
    u.append(encode_component(sha).as_str());
    u.append("&per_page=1&order_by=id&sort=desc");
    u
}

/// URL of the jobs of a pipeline.
pub fn pipeline_jobs_url(api_url: &str, project: &str, pipeline_id: u64) -> (r: String)
    ensures
        r@ == pipeline_jobs_url_spec(api_url@, project@, pipeline_id),
{
    let mut u = project_root_of(api_url, project);
    u.append("/pipelines/");
    u.append(u64_to_decimal(pipeline_id).as_str());
    u.append("/jobs?per_page=100");
    u
}

/// URL of the artifacts archive of a job.
pub fn artifacts_url(api_url: &str, project: &str, job_id: u64) -> (r: String)
    ensures
        r@ == job_url_spec(api_url@, project@, job_id, "/artifacts"@),
{
    let mut u = project_root_of(api_url, project);
    u.append("/jobs/");
    u.append(u64_to_decimal(job_id).as_str());
    u.append("/artifacts");
    u
}

/// URL that starts a manual job.
pub fn play_url(api_url: &str, project: &str, job_id: u64) -> (r: String)
    ensures
        r@ == job_url_spec(api_url@, project@, job_id, "/play"@),
{
    let mut u = project_root_of(api_url, project);
    u.append("/jobs/");
    u.append(u64_to_decimal(job_id).as_str());
    u.append("/play");
    u
}

/// URL that retries a job.
pub fn retry_url(api_url: &str, project: &str, job_id: u64) -> (r: String)
    ensures
        r@ == job_url_spec(api_url@, project@, job_id, "/retry"@),
{
    let mut u = project_root_of(api_url, project);
    u.append("/jobs/");
    u.append(u64_to_decimal(job_id).as_str());
    u.append("/retry");
    u
}

/// URL of one file of a generic package (upload, download, delete).
pub fn package_file_url(api_url: &str, project: &str, name: &str, version: &str, file_name: &str) -> (r:
    String)
    ensures
        r@ == package_file_url_spec(api_url@, project@, name@, version@, file_name@),
{
    let mut u = project_root_of(api_url, project);
    u.append("/packages/generic/");
    u.append(encode_component(name).as_str());
    u.append("/");
    u.append(encode_component(version).as_str());
    u.append("/");
    u.append(encode_component(file_name).as_str());
    u
}

/// URL listing the packages of a project, optionally filtered by name.
pub fn packages_url(api_url: &str, project: &str, name: Option<&str>) -> (r: String)
    ensures
        r@ == packages_url_spec(
            api_url@,
            project@,
            match name {
                Some(n) => Some(n@),
                None => None,
            },
        ),
{
    let mut u = project_root_of(api_url, project);
    u.append("/packages?per_page=100&order_by=version&sort=desc");
    match name {
        Some(n) => {
            u.append("&package_name=");
            u.append(encode_component(n).as_str());
        },
        None => {},
    }
    u
}

/// URL of one package (used to delete it).
pub fn package_url(api_url: &str, project: &str, package_id: u64) -> (r: String)
    ensures
        r@ == package_url_spec(api_url@, project@, package_id),
{
    let mut u = project_root_of(api_url, project);
    u.append("/packages/");
    u.append(u64_to_decimal(package_id).as_str());
    u
}

/// URL listing the files of a package.
pub fn package_files_url(api_url: &str, project: &str, package_id: u64) -> (r: String)
    ensures
        r@ == package_url_spec(api_url@, project@, package_id) + "/package_files"@,
{
    let mut u = package_url(api_url, project, package_id);
    u.append("/package_files");
    u
}

/// URL of the GraphQL endpoint that belongs to a REST API root.
pub fn graphql_url(api_url: &str) -> (r: String)
    ensures
        r@ == graphql_url_spec(api_url@),
{
    let mut u = String::from_str(api_url);
    u.append("/../graphql");
    u
}

} // verus!
