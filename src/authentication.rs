//! Credential checks: Basic (user and password) and Bearer (token and claims).

use vstd::prelude::*;
use vstd::utf8::encode_utf8;
use crate::config::{Authentication, Claim};
use crate::text::{bytes_eq, has_prefix, starts_with_bytes, str_eq};

verus! {

/// The signal raised when a request's credentials do not satisfy its endpoint.
pub struct Unauthorized;

/// What the standard base64 alphabet, with padding, decodes `b` to; `None`
/// where `b` is not such base64 text.
pub uninterp spec fn base64_decoded(b: Seq<u8>) -> Option<Seq<u8>>;

/// The members of the JSON object that `b` holds, in serde_json's map order,
/// each value printed as compact JSON; `None` where `b` is neither a JSON
/// object nor `null`.
pub uninterp spec fn json_members(b: Seq<u8>) -> Option<Seq<(Seq<char>, Seq<char>)>>;

/// Relies on base64 0.22's `general_purpose::STANDARD.decode`: the decoded
/// bytes depend on the input bytes alone, and malformed input is an error.
#[verifier::external_body]
fn decode_base64(b: &[u8]) -> (r: Option<Vec<u8>>)
    ensures
        match r {
            Some(v) => base64_decoded(b@) == Some(v@),
            None => base64_decoded(b@) is None,
        },
{
    base64::Engine::decode(&base64::engine::general_purpose::STANDARD, b).ok()
}

/// Relies on `serde_json::from_slice` into a `serde_json::Map` (which fails on
/// anything but a JSON object or `null`), and on `serde_json::Value`'s
/// `Display` for the compact text of each member's value.
#[verifier::external_body]
fn parse_members(b: &[u8]) -> (r: Option<Vec<(String, String)>>)
    ensures
        members_view(r) == json_members(b@),
{
    match serde_json::from_slice::<serde_json::Map<String, serde_json::Value>>(b) {
        Ok(m) => Some(m.into_iter().map(|(k, v)| (k, v.to_string())).collect()),
        Err(_) => None,
    }
}

/// The members held by `r`, as character sequences.
pub open spec fn members_view(r: Option<Vec<(String, String)>>) -> Option<Seq<(Seq<char>, Seq<char>)>> {
    match r {
        Some(v) => Some(v@.map_values(|p: (String, String)| (p.0@, p.1@))),
        None => None,
    }
}

/// The claim set of a token: its members, or none where it is not an object.
pub open spec fn claim_set(parsed: Option<Seq<(Seq<char>, Seq<char>)>>) -> Seq<(Seq<char>, Seq<char>)> {
    match parsed {
        Some(m) => m,
        None => Seq::empty(),
    }
}

/// The value of the first member named `name`.
pub open spec fn member_value(members: Seq<(Seq<char>, Seq<char>)>, name: Seq<char>) -> Option<Seq<char>>
    decreases members.len(),
{
    if members.len() == 0 {
        None
    } else if members[0].0 == name {
        Some(members[0].1)
    } else {
        member_value(members.drop_first(), name)
    }
}

/// The claim name that is never checked against the token's claims.
pub open spec fn reserved_claim() -> Seq<char> {
    "token"@
}

/// Every required claim other than the reserved one is present in `members`
/// with exactly the required value.
pub open spec fn claims_hold(required: Seq<Claim>, members: Seq<(Seq<char>, Seq<char>)>) -> bool {
    forall|i: int|
        0 <= i < required.len() && required[i].name@ != reserved_claim() ==> member_value(
            members,
            #[trigger] required[i].name@,
        ) == Some(required[i].value@)
}

/// The bytes that `Basic` credentials decode to: `user:password`.
pub open spec fn credentials(user: Seq<char>, password: Seq<char>) -> Seq<u8> {
    encode_utf8(user) + encode_utf8(":"@) + encode_utf8(password)
}

/// What follows `prefix` in `h`.
pub open spec fn after(h: Seq<u8>, prefix: Seq<u8>) -> Seq<u8> {
    h.subrange(prefix.len() as int, h.len() as int)
}

/// Whether the header bytes `h` satisfy `auth`.
pub open spec fn header_accepted(auth: Authentication, h: Seq<u8>) -> bool {
    match auth {
        Authentication::Basic { user, password } => {
            let prefix = encode_utf8("Basic "@);
            &&& has_prefix(h, prefix)
            &&& base64_decoded(after(h, prefix)) == Some(credentials(user@, password@))
        },
        Authentication::Bearer { token, claims } => {
            let prefix = encode_utf8("Bearer "@);
            &&& has_prefix(h, prefix)
            &&& after(h, prefix) == encode_utf8(token@)
            &&& claims_hold(claims@, claim_set(json_members(encode_utf8(token@))))
        },
    }
}

/// Whether a request carrying `header` (if any) satisfies `auth`. A request
/// without an `Authorization` header never does.
pub open spec fn auth_accepts(auth: Authentication, header: Option<String>) -> bool {
    match header {
        Some(h) => header_accepted(auth, encode_utf8(h@)),
        None => false,
    }
}

/// Whether `d` is `a` followed by `b` followed by `c`.
fn is_concat3(d: &[u8], a: &[u8], b: &[u8], c: &[u8]) -> (r: bool)
    ensures
        r == (d@ == a@ + b@ + c@),
{
    if d.len() < a.len() {
        return false;
    }
    let rest = &d[a.len()..d.len()];
    if rest.len() < b.len() {
        return false;
    }
    let tail = &rest[b.len()..rest.len()];
    let r = bytes_eq(&d[0..a.len()], a) && bytes_eq(&rest[0..b.len()], b) && bytes_eq(tail, c);
    proof {
        assert(d@ =~= d@.subrange(0, a@.len() as int) + rest@);
        assert(rest@ =~= rest@.subrange(0, b@.len() as int) + tail@);
        if r {
            assert(rest@ =~= b@ + c@);
            assert(d@ =~= a@ + b@ + c@);
        }
        if d@ == a@ + b@ + c@ {
            assert(d@.subrange(0, a@.len() as int) =~= a@);
            assert(rest@ =~= b@ + c@);
            assert(rest@.subrange(0, b@.len() as int) =~= b@);
            assert(tail@ =~= c@);
        }
    }
    r
}

/// Whether the outcome of decoding a `Basic` header, `decoded`, is exactly
/// `user:password`. A header that did not decode never matches.
pub fn basic_credentials_match(decoded: &Option<Vec<u8>>, user: &String, password: &String) -> (r: bool)
    ensures
        r == match decoded {
            Some(d) => d@ == credentials(user@, password@),
            None => false,
        },
{
    match decoded {
        Some(d) => is_concat3(d.as_slice(), user.as_str().as_bytes(), ":".as_bytes(), password.as_str().as_bytes()),
        None => false,
    }
}

/// Whether `members` holds `name` with the value `value` as its first member
/// of that name.
fn has_member(members: &Vec<(String, String)>, name: &String, value: &String) -> (r: bool)
    ensures
        r == (member_value(members@.map_values(|p: (String, String)| (p.0@, p.1@)), name@) == Some(value@)),
{
    let ghost view = members@.map_values(|p: (String, String)| (p.0@, p.1@));
    let n = members.len();
    let mut i: usize = 0;
    assert(view.subrange(0, n as int) =~= view);
    while i < n
        invariant
            n == members@.len(),
            i <= n,
            view == members@.map_values(|p: (String, String)| (p.0@, p.1@)),
            member_value(view, name@) == member_value(view.subrange(i as int, n as int), name@),
        decreases n - i,
    {
        let ghost rest = view.subrange(i as int, n as int);
        assert(rest.drop_first() =~= view.subrange(i + 1, n as int));
        if members[i].0 == *name {
            return members[i].1 == *value;
        }
        i = i + 1;
    }
    false
}

/// Whether the claim set of a token, given as the outcome of reading it as a
/// JSON object (`None`: it was not one, so it carries no claim), satisfies
/// every required claim other than the reserved `token`.
pub fn claims_satisfied(required: &Vec<Claim>, members: &Option<Vec<(String, String)>>) -> (r: bool)
    ensures
        r == claims_hold(required@, claim_set(members_view(*members))),
{
    let ghost set = claim_set(members_view(*members));
    let n = required.len();
    let mut i: usize = 0;
    while i < n
        invariant
            n == required@.len(),
            i <= n,
            set == claim_set(members_view(*members)),
            forall|j: int|
                0 <= j < i && required@[j].name@ != reserved_claim() ==> member_value(
                    set,
                    #[trigger] required@[j].name@,
                ) == Some(required@[j].value@),
        decreases n - i,
    {
        let claim = &required[i];
        if !str_eq(claim.name.as_str(), "token") {
            let ok = match members {
                Some(m) => has_member(m, &claim.name, &claim.value),
                None => false,
            };
            if !ok {
                return false;
            }
        }
        i = i + 1;
    }
    true
}

/// Whether `token`, read as a JSON object, carries every required claim.
/// Text that is not a JSON object carries no claim.
pub fn validate_claims(claims: &Vec<Claim>, token: &[u8]) -> (r: bool)
    ensures
        r == claims_hold(claims@, claim_set(json_members(token@))),
{
    let members = parse_members(token);
    claims_satisfied(claims, &members)
}

/// Whether a request with `auth_header` satisfies `auth`.
pub fn validate_auth(auth: &Authentication, auth_header: Option<String>) -> (r: bool)
    ensures
        r == auth_accepts(*auth, auth_header),
{
    match auth_header {
        None => false,
        Some(header) => {
            let h = header.as_str().as_bytes();
            match auth {
                Authentication::Basic { user, password } => {
                    let prefix = "Basic ".as_bytes();
                    if !starts_with_bytes(h, prefix) {
                        return false;
                    }
                    let decoded = decode_base64(&h[prefix.len()..h.len()]);
                    basic_credentials_match(&decoded, user, password)
                },
                Authentication::Bearer { token, claims } => {
                    let prefix = "Bearer ".as_bytes();
                    if !starts_with_bytes(h, prefix) {
                        return false;
                    }
                    let provided = &h[prefix.len()..h.len()];
                    if !bytes_eq(provided, token.as_str().as_bytes()) {
                        return false;
                    }
                    validate_claims(claims, provided)
                },
            }
        },
    }
}

/// Checks a request's credentials against an endpoint's requirement: an
/// endpoint without one lets every request through.
pub fn check_authentication(auth: &Option<Authentication>, auth_header: Option<String>) -> (r: Result<(), Unauthorized>)
    ensures
        r is Ok <==> match auth {
            Some(a) => auth_accepts(*a, auth_header),
            None => true,
        },
{
    match auth {
        Some(a) => {
            if validate_auth(a, auth_header) {
                Ok(())
            } else {
                Err(Unauthorized)
            }
        },
        None => Ok(()),
    }
}

} // verus!
