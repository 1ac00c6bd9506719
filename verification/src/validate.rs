//! Validation of what the web panel receives for a proxy rule.
use vstd::prelude::*;
use vstd::string::StringSliceAdditionalSpecFns;
use vstd::utf8::encode_utf8;

use crate::text::{lemma_str_empty_bytes, alphanumeric, append, char_is_alphanumeric, owned, str_chars, str_eq, string_views};

verus! {

/// Length of a text in UTF-8 bytes (what `str::len` counts).
pub open spec fn byte_len(s: Seq<char>) -> int {
    encode_utf8(s).len() as int
}

/// A character allowed in a proxy rule name.
pub open spec fn proxy_name_char(c: char) -> bool {
    alphanumeric(c) || c == '-' || c == '_'
}

/// A character allowed in a client id.
pub open spec fn client_id_char(c: char) -> bool {
    alphanumeric(c) || c == '-' || c == '_' || c == '.'
}

/// A character allowed in a domain.
pub open spec fn domain_char(c: char) -> bool {
    alphanumeric(c) || c == '-' || c == '.' || c == '_'
}

/// Every character of `s` is allowed in a proxy rule name.
pub open spec fn proxy_name_chars(s: Seq<char>) -> bool {
    forall|i: int| 0 <= i < s.len() ==> proxy_name_char(#[trigger] s[i])
}

/// Every character of `s` is allowed in a client id.
pub open spec fn client_id_chars(s: Seq<char>) -> bool {
    forall|i: int| 0 <= i < s.len() ==> client_id_char(#[trigger] s[i])
}

/// Every character of `s` is allowed in a domain.
pub open spec fn domain_chars(s: Seq<char>) -> bool {
    forall|i: int| 0 <= i < s.len() ==> domain_char(#[trigger] s[i])
}

/// Whether every character of `s` is allowed in a proxy rule name.
fn all_proxy_name_chars(s: &str) -> (r: bool)
    ensures
        r == proxy_name_chars(s@),
{
    let cs = str_chars(s);
    let mut i: usize = 0;
    while i < cs.len()
        invariant
            cs@ == s@,
            i <= cs@.len(),
            forall|j: int| 0 <= j < i ==> proxy_name_char(#[trigger] cs@[j]),
        decreases cs@.len() - i,
    {
        let c = cs[i];
        if !(char_is_alphanumeric(c) || c == '-' || c == '_') {
            return false;
        }
        i = i + 1;
    }
    true
}

/// Whether every character of `s` is allowed in a client id.
pub fn all_client_id_chars(s: &str) -> (r: bool)
    ensures
        r == client_id_chars(s@),
{
    let cs = str_chars(s);
    let mut i: usize = 0;
    while i < cs.len()
        invariant
            cs@ == s@,
            i <= cs@.len(),
            forall|j: int| 0 <= j < i ==> client_id_char(#[trigger] cs@[j]),
        decreases cs@.len() - i,
    {
        let c = cs[i];
        if !(char_is_alphanumeric(c) || c == '-' || c == '_' || c == '.') {
            return false;
        }
        i = i + 1;
    }
    true
}

/// Whether every character of `s` is allowed in a domain.
fn all_domain_chars(s: &str) -> (r: bool)
    ensures
        r == domain_chars(s@),
{
    let cs = str_chars(s);
    let mut i: usize = 0;
    while i < cs.len()
        invariant
            cs@ == s@,
            i <= cs@.len(),
            forall|j: int| 0 <= j < i ==> domain_char(#[trigger] cs@[j]),
        decreases cs@.len() - i,
    {
        let c = cs[i];
        if !(char_is_alphanumeric(c) || c == '-' || c == '.' || c == '_') {
            return false;
        }
        i = i + 1;
    }
    true
}

/// A valid proxy rule name: 1 to 64 characters, each a letter, a digit,
/// `-` or `_`.
pub open spec fn proxy_name_ok(name: Seq<char>) -> bool {
    1 <= name.len() <= 64 && proxy_name_chars(name)
}

/// The message for a refused proxy rule name.
pub open spec fn proxy_name_error(name: Seq<char>) -> Seq<char> {
    if !(1 <= name.len() <= 64) {
        "代理规则名称长度需在 1-64 之间"@
    } else {
        "代理规则名称仅允许字母、数字、横线和下划线"@
    }
}

/// Checks a proxy rule name: 1 to 64 characters, each a letter, a digit,
/// `-` or `_`.
pub fn validate_proxy_name(name: &str) -> (r: Result<(), String>)
    ensures
        match r {
            Ok(()) => proxy_name_ok(name@),
            Err(m) => !proxy_name_ok(name@) && m@ == proxy_name_error(name@),
        },
{
    let count = str_chars(name).len();
    if count == 0 || count > 64 {
        return Err(owned("代理规则名称长度需在 1-64 之间"));
    }
    if !all_proxy_name_chars(name) {
        return Err(owned("代理规则名称仅允许字母、数字、横线和下划线"));
    }
    Ok(())
}

/// Checks that a port is not zero; the message names the field.
pub fn validate_port(port: u16, field_name: &str) -> (r: Result<(), String>)
    ensures
        match r {
            Ok(()) => port != 0,
            Err(m) => port == 0 && m@ == field_name@ + " 不能为 0"@,
        },
{
    if port == 0 {
        let mut m = owned(field_name);
        append(&mut m, " 不能为 0");
        return Err(m);
    }
    Ok(())
}

/// A valid domain: 1 to 253 bytes of letters, digits, `-`, `.` and `_`, not
/// starting with `-` or `.`.
pub open spec fn domain_ok(domain: Seq<char>) -> bool {
    &&& 1 <= byte_len(domain) <= 253
    &&& domain_chars(domain)
    &&& domain[0] != '-' && domain[0] != '.'
}

/// The message for a refused domain.
pub open spec fn domain_error(domain: Seq<char>) -> Seq<char> {
    if !(1 <= byte_len(domain) <= 253) {
        "无效的域名长度: "@ + domain
    } else if !domain_chars(domain) {
        "域名包含非法字符: "@ + domain
    } else {
        "域名格式无效: "@ + domain
    }
}

/// Checks a custom domain.
pub fn validate_domain(domain: &str) -> (r: Result<(), String>)
    ensures
        match r {
            Ok(()) => domain_ok(domain@),
            Err(m) => !domain_ok(domain@) && m@ == domain_error(domain@),
        },
{
    proof {
        lemma_str_empty_bytes(domain);
    }
    if domain.as_bytes().len() == 0 || domain.as_bytes().len() > 253 {
        let mut m = owned("无效的域名长度: ");
        append(&mut m, domain);
        return Err(m);
    }
    if !all_domain_chars(domain) {
        let mut m = owned("域名包含非法字符: ");
        append(&mut m, domain);
        return Err(m);
    }
    let cs = str_chars(domain);
    if cs[0] == '-' || cs[0] == '.' {
        let mut m = owned("域名格式无效: ");
        append(&mut m, domain);
        return Err(m);
    }
    Ok(())
}

/// An accepted PROXY protocol setting: empty, `v1` or `v2`.
pub open spec fn proxy_protocol_ok(p: Seq<char>) -> bool {
    p == Seq::<char>::empty() || p == seq!['v', '1'] || p == seq!['v', '2']
}

/// Checks a PROXY protocol setting: empty, `v1` or `v2`.
pub fn validate_proxy_protocol(protocol: &str) -> (r: Result<(), String>)
    ensures
        match r {
            Ok(()) => proxy_protocol_ok(protocol@),
            Err(m) => !proxy_protocol_ok(protocol@) && m@ == "无效的 proxy_protocol: "@
                + protocol@ + "，仅支持空/v1/v2"@,
        },
{
    proof {
        reveal_strlit("");
        reveal_strlit("v1");
        reveal_strlit("v2");
        assert(""@ =~= Seq::<char>::empty());
        assert("v1"@ =~= seq!['v', '1']);
        assert("v2"@ =~= seq!['v', '2']);
    }
    if str_eq(protocol, "") || str_eq(protocol, "v1") || str_eq(protocol, "v2") {
        return Ok(());
    }
    let mut m = owned("无效的 proxy_protocol: ");
    append(&mut m, protocol);
    append(&mut m, "，仅支持空/v1/v2");
    Err(m)
}

/// A valid client id: 1 to 64 characters, each a letter, a digit, `-`,
/// `_` or `.`.
pub open spec fn client_id_ok(id: Seq<char>) -> bool {
    1 <= id.len() <= 64 && client_id_chars(id)
}

/// The message for a refused client id.
pub open spec fn client_id_error(id: Seq<char>) -> Seq<char> {
    if !(1 <= id.len() <= 64) {
        "客户端 ID 长度需在 1-64 之间"@
    } else {
        "客户端 ID 仅允许字母、数字、横线、下划线和点号"@
    }
}

/// Checks a client id: 1 to 64 characters, each a letter, a digit, `-`,
/// `_` or `.`.
pub fn validate_client_id(id: &str) -> (r: Result<(), String>)
    ensures
        match r {
            Ok(()) => client_id_ok(id@),
            Err(m) => !client_id_ok(id@) && m@ == client_id_error(id@),
        },
{
    let count = str_chars(id).len();
    if count == 0 || count > 64 {
        return Err(owned("客户端 ID 长度需在 1-64 之间"));
    }
    if !all_client_id_chars(id) {
        return Err(owned("客户端 ID 仅允许字母、数字、横线、下划线和点号"));
    }
    Ok(())
}

/// The first domain of a list that is refused, if any.
pub open spec fn first_bad_domain(ds: Seq<Seq<char>>) -> Option<Seq<char>>
    decreases ds.len(),
{
    if ds.len() == 0 {
        None
    } else if !domain_ok(ds[0]) {
        Some(ds[0])
    } else {
        first_bad_domain(ds.drop_first())
    }
}

/// The first bad domain of `ds` is that of its first `i` entries, when
/// those have one, else that of the rest.
proof fn lemma_first_bad_domain_split(ds: Seq<Seq<char>>, i: int)
    requires
        0 <= i <= ds.len(),
        forall|j: int| 0 <= j < i ==> domain_ok(#[trigger] ds[j]),
    ensures
        first_bad_domain(ds) == first_bad_domain(ds.subrange(i, ds.len() as int)),
    decreases i,
{
    if i > 0 {
        assert(domain_ok(ds[0]));
        let t = ds.drop_first();
        assert forall|j: int| 0 <= j < i - 1 implies domain_ok(#[trigger] t[j]) by {
            assert(t[j] == ds[j + 1]);
        }
        lemma_first_bad_domain_split(t, i - 1);
        assert(t.subrange(i - 1, t.len() as int) =~= ds.subrange(i, ds.len() as int));
    } else {
        assert(ds.subrange(0, ds.len() as int) =~= ds);
    }
}

/// Checks each domain of a list in turn; the first refused one gives the
/// error.
pub fn validate_domains(domains: &Vec<String>) -> (r: Result<(), String>)
    ensures
        match r {
            Ok(()) => first_bad_domain(string_views(domains@)) is None,
            Err(m) => first_bad_domain(string_views(domains@)) is Some && m@ == domain_error(first_bad_domain(string_views(domains@))->0),
        },
{
    let ghost ds = string_views(domains@);
    let mut i: usize = 0;
    while i < domains.len()
        invariant
            i <= domains@.len(),
            ds == string_views(domains@),
            forall|j: int| 0 <= j < i ==> domain_ok(#[trigger] ds[j]),
        decreases domains@.len() - i,
    {
        match validate_domain(domains[i].as_str()) {
            Ok(()) => {},
            Err(m) => {
                proof {
                    lemma_first_bad_domain_split(ds, i as int);
                    let rest = ds.subrange(i as int, ds.len() as int);
                    assert(rest[0] == ds[i as int]);
                }
                return Err(m);
            },
        }
        i = i + 1;
    }
    proof {
        lemma_first_bad_domain_split(ds, i as int);
        assert(ds.subrange(i as int, ds.len() as int).len() == 0);
    }
    Ok(())
}

} // verus!
