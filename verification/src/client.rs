//! The computational side of request construction.
//!
//! The network client itself (connection pool, headers, transport) lives
//! outside the library; what is verified here is everything it computes:
//! the authorization token, URL joining, the request paths of the sweep
//! workflow, query-parameter assembly, and decimal rendering of numbers.

use vstd::prelude::*;
use vstd::string::StringSliceAdditionalSpecFns;
use crate::timestamp::{digit_char, push_digit};

verus! {

/// `n` in decimal, most significant digit first, no sign and no padding.
pub open spec fn spec_digits(n: int) -> Seq<char>
    recommends
        n >= 0,
    decreases n,
{
    if n < 10 {
        seq![digit_char(n)]
    } else {
        spec_digits(n / 10).push(digit_char(n % 10))
    }
}

/// `n` in decimal with a leading minus sign when negative.
pub open spec fn spec_signed_digits(n: int) -> Seq<char> {
    if n >= 0 {
        spec_digits(n)
    } else {
        seq!['-'] + spec_digits(-n)
    }
}

/// Appends the decimal digits of `n`.
fn push_u64_digits(out: &mut String, n: u64)
    ensures
        final(out)@ == old(out)@ + spec_digits(n as int),
    decreases n,
{
    if n < 10 {
        push_digit(out, n as u8);
    } else {
        push_u64_digits(out, n / 10);
        push_digit(out, (n % 10) as u8);
        assert(out@ =~= old(out)@ + spec_digits(n as int));
    }
}

/// Renders an unsigned number in decimal.
pub fn u64_to_string(n: u64) -> (r: String)
    ensures
        r@ == spec_digits(n as int),
{
    let mut out = String::new();
    push_u64_digits(&mut out, n);
    assert(out@ =~= spec_digits(n as int));
    out
}

/// Renders a signed number in decimal.
pub fn i64_to_string(n: i64) -> (r: String)
    ensures
        r@ == spec_signed_digits(n as int),
{
    if n >= 0 {
        u64_to_string(n as u64)
    } else {
        let magnitude: u64 = ((-(n + 1)) as u64) + 1;
        assert(magnitude as int == -(n as int));
        let mut out = String::from_str("-");
        push_u64_digits(&mut out, magnitude);
        proof {
            reveal_strlit("-");
            assert("-"@ =~= seq!['-']);
            assert(out@ =~= spec_signed_digits(n as int));
        }
        out
    }
}

/// The rendering of a boolean query value.
pub open spec fn spec_bool_chars(b: bool) -> Seq<char> {
    if b {
        "true"@
    } else {
        "false"@
    }
}

/// Renders a boolean query value.
pub fn bool_str(b: bool) -> (r: &'static str)
    ensures
        r@ == spec_bool_chars(b),
{
    if b {
        "true"
    } else {
        "false"
    }
}

/// The path without its leading slashes.
pub open spec fn spec_trim_slashes(s: Seq<char>) -> Seq<char>
    decreases s.len(),
{
    if s.len() > 0 && s[0] == '/' {
        spec_trim_slashes(s.subrange(1, s.len() as int))
    } else {
        s
    }
}

/// Joins the base URL and a path with exactly one slash between them,
/// however many leading slashes the path came with.
pub fn build_url(base: &str, path: &str) -> (r: String)
    ensures
        r@ == base@ + seq!['/'] + spec_trim_slashes(path@),
{
    let n = path.unicode_len();
    let mut i: usize = 0;
    assert(path@.subrange(0, path@.len() as int) =~= path@);
    while i < n
        invariant
            i <= n,
            n == path@.len(),
            spec_trim_slashes(path@) == spec_trim_slashes(
                path@.subrange(i as int, path@.len() as int),
            ),
        ensures
            i <= n,
            n == path@.len(),
            spec_trim_slashes(path@) == spec_trim_slashes(
                path@.subrange(i as int, path@.len() as int),
            ),
            i == n || path@[i as int] != '/',
        decreases n - i,
    {
        let c = path.get_char(i);
        if c != '/' {
            break ;
        }
        i = i + 1;
        proof {
            let prev = path@.subrange(i - 1, path@.len() as int);
            assert(prev[0] == '/');
            assert(prev.subrange(1, prev.len() as int) =~= path@.subrange(
                i as int,
                path@.len() as int,
            ));
        }
    }
    let trimmed = path.substring_char(i, n);
    proof {
        let rest = path@.subrange(i as int, path@.len() as int);
        assert(spec_trim_slashes(rest) == rest);
    }
    let mut out = String::from_str(base);
    out.append("/");
    out.append(trimmed);
    proof {
        reveal_strlit("/");
        assert("/"@ =~= seq!['/']);
        assert(out@ =~= base@ + seq!['/'] + spec_trim_slashes(path@));
    }
    out
}

/// The path that lists a repository's tags.
pub fn repo_tags_path(repo: &str) -> (r: String)
    ensures
        r@ == "/repositories/"@ + repo@ + "/tags"@,
{
    let mut out = String::from_str("/repositories/");
    out.append(repo);
    out.append("/tags");
    assert(out@ =~= "/repositories/"@ + repo@ + "/tags"@);
    out
}

/// The path that deletes one tag of a repository.
pub fn repo_tag_path(repo: &str, tag_name: &str) -> (r: String)
    ensures
        r@ == "/repositories/"@ + repo@ + "/tags/"@ + tag_name@,
{
    let mut out = String::from_str("/repositories/");
    out.append(repo);
    out.append("/tags/");
    out.append(tag_name);
    assert(out@ =~= "/repositories/"@ + repo@ + "/tags/"@ + tag_name@);
    out
}

/// Query pairs as character sequences.
pub open spec fn params_view(ps: Seq<(String, String)>) -> Seq<(Seq<char>, Seq<char>)> {
    ps.map_values(|p: (String, String)| (p.0@, p.1@))
}

/// One optional query pair.
pub open spec fn spec_opt_param(key: Seq<char>, value: Option<Seq<char>>) -> Seq<
    (Seq<char>, Seq<char>),
> {
    match value {
        Some(v) => seq![(key, v)],
        None => seq![],
    }
}

pub open spec fn spec_opt_string(v: Option<String>) -> Option<Seq<char>> {
    match v {
        Some(s) => Some(s@),
        None => None,
    }
}

pub open spec fn spec_opt_bool(v: Option<bool>) -> Option<Seq<char>> {
    match v {
        Some(b) => Some(spec_bool_chars(b)),
        None => None,
    }
}

pub open spec fn spec_opt_u32(v: Option<u32>) -> Option<Seq<char>> {
    match v {
        Some(n) => Some(spec_digits(n as int)),
        None => None,
    }
}

/// The query of a tag listing: optional label filter, optional detail
/// flag, in that order.
pub open spec fn spec_list_tags_params(label_id: Option<String>, detail: Option<bool>) -> Seq<
    (Seq<char>, Seq<char>),
> {
    spec_opt_param("label"@, spec_opt_string(label_id)) + spec_opt_param(
        "detail"@,
        spec_opt_bool(detail),
    )
}

/// Builds the query of a tag listing.
pub fn list_tags_params(label_id: Option<String>, detail: Option<bool>) -> (r: Vec<
    (String, String),
>)
    ensures
        params_view(r@) == spec_list_tags_params(label_id, detail),
{
    let mut ps: Vec<(String, String)> = Vec::new();
    match label_id {
        Some(l) => {
            ps.push((String::from_str("label"), l));
        },
        None => {},
    }
    match detail {
        Some(b) => {
            ps.push((String::from_str("detail"), String::from_str(bool_str(b))));
        },
        None => {},
    }
    assert(params_view(ps@) =~= spec_list_tags_params(label_id, detail));
    ps
}

/// The query of a project listing: name, public flag, owner, page and
/// page size, each optional, in that order.
pub open spec fn spec_list_projects_params(
    name: Option<String>,
    public: Option<bool>,
    owner: Option<String>,
    page: Option<u32>,
    page_size: Option<u32>,
) -> Seq<(Seq<char>, Seq<char>)> {
    spec_opt_param("name"@, spec_opt_string(name)) + spec_opt_param("public"@, spec_opt_bool(public))
        + spec_opt_param("owner"@, spec_opt_string(owner)) + spec_opt_param(
        "page"@,
        spec_opt_u32(page),
    ) + spec_opt_param("page_size"@, spec_opt_u32(page_size))
}

/// Builds the query of a project listing.
pub fn list_projects_params(
    name: Option<String>,
    public: Option<bool>,
    owner: Option<String>,
    page: Option<u32>,
    page_size: Option<u32>,
) -> (r: Vec<(String, String)>)
    ensures
        params_view(r@) == spec_list_projects_params(name, public, owner, page, page_size),
{
    let mut ps: Vec<(String, String)> = Vec::new();
    match name {
        Some(v) => {
            ps.push((String::from_str("name"), v));
        },
        None => {},
    }
    match public {
        Some(b) => {
            ps.push((String::from_str("public"), String::from_str(bool_str(b))));
        },
        None => {},
    }
    match owner {
        Some(v) => {
            ps.push((String::from_str("owner"), v));
        },
        None => {},
    }
    match page {
        Some(n) => {
            ps.push((String::from_str("page"), u64_to_string(n as u64)));
        },
        None => {},
    }
    match page_size {
        Some(n) => {
            ps.push((String::from_str("page_size"), u64_to_string(n as u64)));
        },
        None => {},
    }
    assert(params_view(ps@) =~= spec_list_projects_params(name, public, owner, page, page_size));
    ps
}

/// The query of a user listing: username, email, page and page size,
/// each optional, in that order.
pub open spec fn spec_list_users_params(
    username: Option<String>,
    email: Option<String>,
    page: Option<u32>,
    page_size: Option<u32>,
) -> Seq<(Seq<char>, Seq<char>)> {
    spec_opt_param("username"@, spec_opt_string(username)) + spec_opt_param(
        "email"@,
        spec_opt_string(email),
    ) + spec_opt_param("page"@, spec_opt_u32(page)) + spec_opt_param(
        "page_size"@,
        spec_opt_u32(page_size),
    )
}

/// Builds the query of a user listing.
pub fn list_users_params(
    username: Option<String>,
    email: Option<String>,
    page: Option<u32>,
    page_size: Option<u32>,
) -> (r: Vec<(String, String)>)
    ensures
        params_view(r@) == spec_list_users_params(username, email, page, page_size),
{
    let mut ps: Vec<(String, String)> = Vec::new();
    match username {
        Some(v) => {
            ps.push((String::from_str("username"), v));
        },
        None => {},
    }
    match email {
        Some(v) => {
            ps.push((String::from_str("email"), v));
        },
        None => {},
    }
    match page {
        Some(n) => {
            ps.push((String::from_str("page"), u64_to_string(n as u64)));
        },
        None => {},
    }
    match page_size {
        Some(n) => {
            ps.push((String::from_str("page_size"), u64_to_string(n as u64)));
        },
        None => {},
    }
    assert(params_view(ps@) =~= spec_list_users_params(username, email, page, page_size));
    ps
}

/// The query of a user search: the username, then page and page size
/// when given.
pub open spec fn spec_search_users_params(
    username: String,
    page: Option<u32>,
    page_size: Option<u32>,
) -> Seq<(Seq<char>, Seq<char>)> {
    seq![("username"@, username@)] + spec_opt_param("page"@, spec_opt_u32(page)) + spec_opt_param(
        "page_size"@,
        spec_opt_u32(page_size),
    )
}

/// Builds the query of a user search.
pub fn search_users_params(username: String, page: Option<u32>, page_size: Option<u32>) -> (r: Vec<
    (String, String),
>)
    ensures
        params_view(r@) == spec_search_users_params(username, page, page_size),
{
    let mut ps: Vec<(String, String)> = Vec::new();
    ps.push((String::from_str("username"), username));
    match page {
        Some(n) => {
            ps.push((String::from_str("page"), u64_to_string(n as u64)));
        },
        None => {},
    }
    match page_size {
        Some(n) => {
            ps.push((String::from_str("page_size"), u64_to_string(n as u64)));
        },
        None => {},
    }
    assert(params_view(ps@) =~= spec_search_users_params(username, page, page_size));
    ps
}

/// The query of a webhook-job listing: the policy id.
pub open spec fn spec_webhook_jobs_params(policy_id: i64) -> Seq<(Seq<char>, Seq<char>)> {
    seq![("policy_id"@, spec_signed_digits(policy_id as int))]
}

/// Builds the query of a webhook-job listing.
pub fn webhook_jobs_params(policy_id: i64) -> (r: Vec<(String, String)>)
    ensures
        params_view(r@) == spec_webhook_jobs_params(policy_id),
{
    let mut ps: Vec<(String, String)> = Vec::new();
    ps.push((String::from_str("policy_id"), i64_to_string(policy_id)));
    assert(params_view(ps@) =~= spec_webhook_jobs_params(policy_id));
    ps
}

/// What the standard padded base64 alphabet makes of a byte sequence:
/// a function of the bytes alone, the same in every process.
pub uninterp spec fn base64_of(bytes: Seq<u8>) -> Seq<char>;

/// Relies on base64's `STANDARD` engine (`Engine::encode`): standard
/// alphabet with padding, a pure function of the input bytes; an empty
/// input encodes to an empty string.
#[verifier::external_body]
fn base64_standard(bytes: &Vec<u8>) -> (r: String)
    ensures
        r@ == base64_of(bytes@),
        bytes@.len() == 0 ==> r@.len() == 0,
{
    base64::engine::Engine::encode(&base64::engine::general_purpose::STANDARD, bytes.as_slice())
}

/// The `Authorization` header value for basic auth: `Basic ` followed by
/// the base64 encoding of `username:password` in UTF-8.
pub fn basic_auth_token(username: &str, password: &str) -> (r: String)
    ensures
        r@ == "Basic "@ + base64_of(username.spec_bytes() + seq![58u8] + password.spec_bytes()),
{
    let mut creds: Vec<u8> = username.as_bytes_vec();
    creds.push(58u8);
    let pw: Vec<u8> = password.as_bytes_vec();
    let pn: usize = pw.len();
    let ghost mid = creds@;
    let mut i: usize = 0;
    while i < pn
        invariant
            i <= pn,
            pn == pw@.len(),
            pw@ == password.spec_bytes(),
            creds@ == mid + pw@.subrange(0, i as int),
        decreases pn - i,
    {
        creds.push(pw[i]);
        proof {
            assert(creds@ =~= mid + pw@.subrange(0, i + 1));
        }
        i = i + 1;
    }
    proof {
        assert(pw@.subrange(0, pn as int) =~= pw@);
        assert(creds@ =~= username.spec_bytes() + seq![58u8] + password.spec_bytes());
    }
    let encoded = base64_standard(&creds);
    let mut out = String::from_str("Basic ");
    out.append(encoded.as_str());
    assert(out@ =~= "Basic "@ + base64_of(
        username.spec_bytes() + seq![58u8] + password.spec_bytes(),
    ));
    out
}

} // verus!
