//! Reading the routing name off the first bytes of a user connection: the
//! `Host` header of an HTTP request, or the server name (SNI) of a TLS
//! ClientHello.
use vstd::prelude::*;
use vstd::utf8::{decode_utf8, encode_utf8, valid_utf8};

use crate::text::{
    is_whitespace, lemma_str_chars_from_bytes, owned, str_chars, str_from_utf8, string_from_chars,
    char_is_whitespace,
};

verus! {

/// Index of the first line feed in `s`, or the length of `s` when there is
/// none.
pub open spec fn newline_index(s: Seq<char>) -> nat
    decreases s.len(),
{
    if s.len() == 0 {
        0
    } else if s[0] == '\n' {
        0
    } else {
        1 + newline_index(s.drop_first())
    }
}

/// A line without the carriage return that ended it.
pub open spec fn strip_cr(l: Seq<char>) -> Seq<char> {
    if l.len() > 0 && l.last() == '\r' {
        l.drop_last()
    } else {
        l
    }
}

/// The lines of a text as `str::lines` gives them: split at `\n`, a `\r`
/// before that `\n` dropped, and no empty line after a final line ending.
pub open spec fn text_lines(s: Seq<char>) -> Seq<Seq<char>>
    decreases s.len(),
{
    if s.len() == 0 {
        seq![]
    } else {
        let i = newline_index(s);
        if i < s.len() {
            seq![strip_cr(s.take(i as int))] + text_lines(s.skip(i + 1 as int))
        } else {
            seq![s]
        }
    }
}

/// `s` without its leading whitespace.
pub open spec fn trim_start(s: Seq<char>) -> Seq<char>
    decreases s.len(),
{
    if s.len() > 0 && is_whitespace(s[0]) {
        trim_start(s.drop_first())
    } else {
        s
    }
}

/// `s` without its trailing whitespace.
pub open spec fn trim_end(s: Seq<char>) -> Seq<char>
    decreases s.len(),
{
    if s.len() > 0 && is_whitespace(s.last()) {
        trim_end(s.drop_last())
    } else {
        s
    }
}

/// Index of the first `c` in `s`, or the length of `s` when there is none.
pub open spec fn index_of(s: Seq<char>, c: char) -> nat
    decreases s.len(),
{
    if s.len() == 0 {
        0
    } else if s[0] == c {
        0
    } else {
        1 + index_of(s.drop_first(), c)
    }
}

/// The host named by a `Host` header value: the value trimmed of
/// whitespace, then cut before the port: after the `]` of a bracketed IPv6
/// address, else before the first `:`.
pub open spec fn host_of_value(v: Seq<char>) -> Seq<char> {
    let h = trim_end(trim_start(v));
    if h.len() > 0 && h[0] == '[' {
        let i = index_of(h, ']');
        if i < h.len() {
            h.take(i + 1 as int)
        } else {
            h
        }
    } else {
        h.take(index_of(h, ':') as int)
    }
}

/// The characters `Host:`.
pub open spec fn host_prefix() -> Seq<char> {
    seq!['H', 'o', 's', 't', ':']
}

/// The host of the first line that starts with `Host:`, looking no further
/// than the first empty line.
pub open spec fn host_in_lines(lines: Seq<Seq<char>>) -> Option<Seq<char>>
    decreases lines.len(),
{
    if lines.len() == 0 {
        None
    } else if lines[0].len() >= 5 && lines[0].take(5) == host_prefix() {
        Some(host_of_value(lines[0].skip(5)))
    } else if lines[0].len() == 0 {
        None
    } else {
        host_in_lines(lines.drop_first())
    }
}

/// The host an HTTP request names; nothing when the bytes are not UTF-8.
pub open spec fn http_host(data: Seq<u8>) -> Option<Seq<char>> {
    if valid_utf8(data) {
        host_in_lines(text_lines(decode_utf8(data)))
    } else {
        None
    }
}

/// `newline_index` is the first line feed.
proof fn lemma_newline_index(s: Seq<char>, i: int)
    requires
        0 <= i <= s.len(),
        i < s.len() ==> s[i] == '\n',
        forall|j: int| 0 <= j < i ==> s[j] != '\n',
    ensures
        newline_index(s) == i,
    decreases i,
{
    if i > 0 {
        assert forall|j: int| 0 <= j < i - 1 implies s.drop_first()[j] != '\n' by {
            assert(s.drop_first()[j] == s[j + 1]);
        }
        lemma_newline_index(s.drop_first(), i - 1);
    }
}

/// `index_of` is the first occurrence.
proof fn lemma_index_of(s: Seq<char>, c: char, i: int)
    requires
        0 <= i <= s.len(),
        i < s.len() ==> s[i] == c,
        forall|j: int| 0 <= j < i ==> s[j] != c,
    ensures
        index_of(s, c) == i,
    decreases i,
{
    if i > 0 {
        assert forall|j: int| 0 <= j < i - 1 implies s.drop_first()[j] != c by {
            assert(s.drop_first()[j] == s[j + 1]);
        }
        lemma_index_of(s.drop_first(), c, i - 1);
    }
}

/// Index of the first `c` in `cs[from..to]`, or `to`.
fn find_char(cs: &Vec<char>, from: usize, to: usize, c: char) -> (i: usize)
    requires
        from <= to <= cs@.len(),
    ensures
        from <= i <= to,
        i < to ==> cs@[i as int] == c,
        forall|j: int| from <= j < i ==> cs@[j] != c,
{
    let mut i = from;
    while i < to
        invariant
            from <= i <= to,
            to <= cs@.len(),
            forall|j: int| from <= j < i ==> cs@[j] != c,
        decreases to - i,
    {
        if cs[i] == c {
            return i;
        }
        i = i + 1;
    }
    i
}

/// The host of a `Host` header value held in `cs[from..to]`.
fn host_of_value_exec(cs: &Vec<char>, from: usize, to: usize) -> (h: String)
    requires
        from <= to <= cs@.len(),
    ensures
        h@ == host_of_value(cs@.subrange(from as int, to as int)),
{
    let ghost v = cs@.subrange(from as int, to as int);
    let mut a = from;
    while a < to && char_is_whitespace(cs[a])
        invariant
            from <= a <= to <= cs@.len(),
            trim_start(v) == trim_start(cs@.subrange(a as int, to as int)),
        decreases to - a,
    {
        assert(cs@.subrange(a as int + 1, to as int) =~= cs@.subrange(a as int, to as int).drop_first());
        a = a + 1;
    }
    assert(trim_start(v) == cs@.subrange(a as int, to as int));
    let mut b = to;
    while b > a && char_is_whitespace(cs[b - 1])
        invariant
            from <= a <= b <= to <= cs@.len(),
            trim_end(trim_start(v)) == trim_end(cs@.subrange(a as int, b as int)),
        decreases b - a,
    {
        assert(cs@.subrange(a as int, b - 1) =~= cs@.subrange(a as int, b as int).drop_last());
        b = b - 1;
    }
    let ghost h = cs@.subrange(a as int, b as int);
    assert(trim_end(trim_start(v)) == h);
    if a < b && cs[a] == '[' {
        let i = find_char(cs, a, b, ']');
        proof {
            lemma_index_of(h, ']', i - a);
        }
        if i < b {
            assert(h.take(i - a + 1) =~= cs@.subrange(a as int, i + 1));
            string_from_chars(&cs[a..i + 1])
        } else {
            string_from_chars(&cs[a..b])
        }
    } else {
        let i = find_char(cs, a, b, ':');
        proof {
            lemma_index_of(h, ':', i - a);
        }
        assert(h.take(i - a) =~= cs@.subrange(a as int, i as int));
        string_from_chars(&cs[a..i])
    }
}

/// Whether `cs[from..to]` starts with `Host:`.
fn starts_with_host(cs: &Vec<char>, from: usize, to: usize) -> (r: bool)
    requires
        from <= to <= cs@.len(),
    ensures
        r == (to - from >= 5 && cs@.subrange(from as int, to as int).take(5) == host_prefix()),
{
    if to - from < 5 {
        return false;
    }
    let r = cs[from] == 'H' && cs[from + 1] == 'o' && cs[from + 2] == 's' && cs[from + 3] == 't'
        && cs[from + 4] == ':';
    assert(r == (cs@.subrange(from as int, to as int).take(5) =~= host_prefix()));
    r
}

/// Reads the `Host` header of an HTTP request, without its port.
///
/// Looks at the header lines up to the first empty line; `None` when the
/// bytes are not UTF-8 or no `Host:` line comes first.
pub fn extract_host_from_http(data: &[u8]) -> (r: Option<String>)
    ensures
        match r {
            Some(h) => http_host(data@) == Some(h@),
            None => http_host(data@) is None,
        },
{
    let header = match str_from_utf8(data) {
        Some(s) => s,
        None => {
            return None;
        },
    };
    proof {
        lemma_str_chars_from_bytes(header, data@);
    }
    let cs = str_chars(header);
    let ghost all = cs@;
    let n = cs.len();
    let mut pos: usize = 0;
    assert(all.skip(0) =~= all);
    while pos < n
        invariant
            n == cs@.len(),
            pos <= n,
            all == cs@,
            http_host(data@) == host_in_lines(text_lines(all)),
            host_in_lines(text_lines(all)) == host_in_lines(text_lines(all.skip(pos as int))),
        decreases n - pos,
    {
        let ghost rest = all.skip(pos as int);
        let nl = find_char(&cs, pos, n, '\n');
        let has_nl = nl < n;
        let mut end = nl;
        if has_nl && end > pos && cs[end - 1] == '\r' {
            end = end - 1;
        }
        let ghost line = all.subrange(pos as int, end as int);
        let ghost tl = text_lines(rest);
        proof {
            let i = nl - pos;
            assert forall|j: int| 0 <= j < i implies rest[j] != '\n' by {
                assert(rest[j] == all[pos + j]);
            }
            lemma_newline_index(rest, i);
            if has_nl {
                assert(rest.take(i) =~= all.subrange(pos as int, nl as int));
                assert(strip_cr(rest.take(i)) =~= line);
                assert(rest.skip(i + 1) =~= all.skip(nl + 1));
                assert(tl =~= seq![line] + text_lines(all.skip(nl + 1)));
                assert(tl.drop_first() =~= text_lines(all.skip(nl + 1)));
            } else {
                assert(rest =~= line);
                assert(tl =~= seq![line]);
                assert(tl.drop_first() =~= Seq::<Seq<char>>::empty());
            }
            assert(tl[0] == line);
            assert(tl.len() > 0);
        }
        if starts_with_host(&cs, pos, end) {
            let h = host_of_value_exec(&cs, pos + 5, end);
            assert(all.subrange(pos as int, end as int).skip(5) =~= all.subrange(
                pos + 5,
                end as int,
            ));
            return Some(h);
        }
        if end == pos {
            assert(line.len() == 0);
            assert(host_in_lines(tl) is None);
            return None;
        }
        if !has_nl {
            assert(host_in_lines(tl) == host_in_lines(tl.drop_first()));
            return None;
        }
        pos = nl + 1;
    }
    proof {
        assert(all.skip(pos as int) =~= Seq::<char>::empty());
    }
    None
}

/// Header lines as a request writes them, each followed by CR LF.
pub open spec fn crlf_lines(ls: Seq<Seq<char>>) -> Seq<char>
    decreases ls.len(),
{
    if ls.len() == 0 {
        seq![]
    } else {
        ls[0] + seq!['\r', '\n'] + crlf_lines(ls.drop_first())
    }
}

/// A line that is not empty, holds no line feed, and does not start with
/// `Host:`.
pub open spec fn other_header_line(l: Seq<char>) -> bool {
    l.len() > 0 && !l.contains('\n') && !(l.len() >= 5 && l.take(5) == host_prefix())
}

/// A line followed by CR LF splits off as that line.
proof fn lemma_text_lines_first(l: Seq<char>, s: Seq<char>)
    requires
        !l.contains('\n'),
    ensures
        text_lines(l + seq!['\r', '\n'] + s) == seq![l] + text_lines(s),
{
    let t = l + seq!['\r', '\n'] + s;
    let i: int = l.len() as int + 1;
    assert forall|j: int| 0 <= j < i implies t[j] != '\n' by {
        if j < l.len() {
            assert(t[j] == l[j]);
            if l[j] == '\n' {
                assert(l.contains('\n'));
            }
        } else {
            assert(t[j] == '\r');
        }
    }
    assert(t[i] == '\n');
    lemma_newline_index(t, i);
    assert(t.take(i) =~= l.push('\r'));
    assert(strip_cr(l.push('\r')) =~= l);
    assert(t.skip(i + 1) =~= s);
}

/// Lines written with CR LF read back as those lines.
proof fn lemma_text_lines_crlf(ls: Seq<Seq<char>>, s: Seq<char>)
    requires
        forall|i: int| 0 <= i < ls.len() ==> !(#[trigger] ls[i]).contains('\n'),
    ensures
        text_lines(crlf_lines(ls) + s) == ls + text_lines(s),
    decreases ls.len(),
{
    if ls.len() > 0 {
        let t = ls.drop_first();
        assert forall|i: int| 0 <= i < t.len() implies !(#[trigger] t[i]).contains('\n') by {
            assert(t[i] == ls[i + 1]);
        }
        lemma_text_lines_crlf(t, s);
        assert(crlf_lines(ls) + s =~= ls[0] + seq!['\r', '\n'] + (crlf_lines(t) + s));
        lemma_text_lines_first(ls[0], crlf_lines(t) + s);
        assert(ls =~= seq![ls[0]] + t);
        assert(seq![ls[0]] + (t + text_lines(s)) =~= ls + text_lines(s));
    }
}

/// Lines that are not empty and not `Host:` lines are passed over.
proof fn lemma_host_skips_other_lines(pre: Seq<Seq<char>>, post: Seq<Seq<char>>)
    requires
        forall|i: int| 0 <= i < pre.len() ==> other_header_line(#[trigger] pre[i]),
    ensures
        host_in_lines(pre + post) == host_in_lines(post),
    decreases pre.len(),
{
    if pre.len() > 0 {
        let t = pre.drop_first();
        assert forall|i: int| 0 <= i < t.len() implies other_header_line(#[trigger] t[i]) by {
            assert(t[i] == pre[i + 1]);
        }
        lemma_host_skips_other_lines(t, post);
        assert((pre + post)[0] == pre[0]);
        assert(other_header_line(pre[0]));
        assert((pre + post).drop_first() =~= t + post);
    }
}

/// The `Host` header is found wherever it stands among the header lines:
/// for a request line and any header lines before it that are neither
/// empty nor `Host:` lines, the request names the host of its `Host:`
/// line's value, whatever follows, just as a request whose `Host:` line
/// comes first does.
pub proof fn lemma_host_after_other_headers(
    request_line: Seq<char>,
    headers: Seq<Seq<char>>,
    value: Seq<char>,
    rest: Seq<char>,
)
    requires
        other_header_line(request_line),
        forall|i: int| 0 <= i < headers.len() ==> other_header_line(#[trigger] headers[i]),
        !value.contains('\n'),
    ensures
        http_host(
            encode_utf8(crlf_lines(seq![request_line] + headers + seq![host_prefix() + value]) + rest),
        ) == Some(host_of_value(value)),
        http_host(
            encode_utf8(crlf_lines(seq![request_line] + headers + seq![host_prefix() + value]) + rest),
        ) == http_host(encode_utf8(crlf_lines(seq![request_line, host_prefix() + value]) + rest)),
{
    broadcast use vstd::utf8::encode_utf8_valid_utf8, vstd::utf8::encode_utf8_decode_utf8;

    let host_line = host_prefix() + value;
    assert(!host_line.contains('\n')) by {
        if host_line.contains('\n') {
            let j = choose|j: int| 0 <= j < host_line.len() && host_line[j] == '\n';
            if j >= 5 {
                assert(value[j - 5] == '\n');
                assert(value.contains('\n'));
            }
        }
    }
    let pre = seq![request_line] + headers;
    assert forall|i: int| 0 <= i < pre.len() implies other_header_line(#[trigger] pre[i]) by {
        if i > 0 {
            assert(pre[i] == headers[i - 1]);
        }
    }
    let post = seq![host_line] + text_lines(rest);
    assert(host_line.take(5) =~= host_prefix());
    assert(host_line.skip(5) =~= value);
    assert(host_in_lines(post) == Some(host_of_value(value)));
    // with other headers
    let ls = pre + seq![host_line];
    assert forall|i: int| 0 <= i < ls.len() implies !(#[trigger] ls[i]).contains('\n') by {
        if i < pre.len() {
            assert(ls[i] == pre[i]);
        } else {
            assert(ls[i] == host_line);
        }
    }
    lemma_text_lines_crlf(ls, rest);
    assert(ls + text_lines(rest) =~= pre + post);
    lemma_host_skips_other_lines(pre, post);
    // with the Host line first
    let ls1 = seq![request_line, host_line];
    let pre1 = seq![request_line];
    assert forall|i: int| 0 <= i < ls1.len() implies !(#[trigger] ls1[i]).contains('\n') by {}
    assert forall|i: int| 0 <= i < pre1.len() implies other_header_line(#[trigger] pre1[i]) by {}
    lemma_text_lines_crlf(ls1, rest);
    assert(ls1 + text_lines(rest) =~= pre1 + post);
    lemma_host_skips_other_lines(pre1, post);
}

/// Big-endian value of the two bytes at `i`.
pub open spec fn be16_at(data: Seq<u8>, i: int) -> int {
    data[i] * 256 + data[i + 1]
}

/// The server name of the SNI entry whose list starts at `list`.
pub open spec fn sni_entry(data: Seq<u8>, list: int) -> Option<Seq<char>> {
    if list + 3 > data.len() || data[list + 2] != 0 {
        None
    } else {
        let name_len_at = list + 3;
        if name_len_at + 2 > data.len() {
            None
        } else {
            let start = name_len_at + 2;
            let len = be16_at(data, name_len_at);
            if start + len > data.len() {
                None
            } else {
                let name = data.subrange(start, start + len);
                if valid_utf8(name) {
                    Some(decode_utf8(name))
                } else {
                    None
                }
            }
        }
    }
}

/// The server name found by walking the extensions from `offset` while a
/// whole extension header fits before `limit`.
pub open spec fn sni_in_extensions(data: Seq<u8>, offset: int, limit: int) -> Option<Seq<char>>
    decreases (if offset < limit {
        limit - offset
    } else {
        0
    }),
{
    if offset + 4 > limit {
        None
    } else if be16_at(data, offset) == 0 {
        sni_entry(data, offset + 4)
    } else {
        sni_in_extensions(data, offset + 4 + be16_at(data, offset + 2), limit)
    }
}

/// The server name (SNI) of a TLS ClientHello record, as the header fields
/// locate it: the record and handshake types, then the session id, cipher
/// suites and compression methods skipped, then the extensions searched for
/// the `server_name` extension (type 0) whose first entry is a host name.
pub open spec fn client_hello_sni(data: Seq<u8>) -> Option<Seq<char>> {
    if data.len() < 44 || data[0] != 0x16 || data[5] != 0x01 {
        None
    } else {
        let cipher_suites = 44 + data[43];
        if cipher_suites + 2 > data.len() {
            None
        } else {
            let compression = cipher_suites + 2 + be16_at(data, cipher_suites);
            if compression + 2 > data.len() {
                None
            } else {
                let extensions = compression + 1 + data[compression];
                if extensions + 2 > data.len() {
                    None
                } else {
                    let end = extensions + 2 + be16_at(data, extensions);
                    let limit = if end < data.len() {
                        end
                    } else {
                        data.len() as int
                    };
                    sni_in_extensions(data, extensions + 2, limit)
                }
            }
        }
    }
}

/// A two-byte big-endian length or type field holding `v`.
pub open spec fn be16_field(v: int) -> Seq<u8> {
    seq![(v / 256) as u8, (v % 256) as u8]
}

/// A TLS extension: its type, the length of its body, and its body.
pub open spec fn extension_bytes(ext_type: u16, body: Seq<u8>) -> Seq<u8> {
    be16_field(ext_type as int) + be16_field(body.len() as int) + body
}

/// A list of TLS extensions, in order.
pub open spec fn extensions_bytes(exts: Seq<(u16, Seq<u8>)>) -> Seq<u8>
    decreases exts.len(),
{
    if exts.len() == 0 {
        seq![]
    } else {
        extension_bytes(exts[0].0, exts[0].1) + extensions_bytes(exts.drop_first())
    }
}

/// The `server_name` extension (type 0) naming the host name `name`: the
/// list length, the name type (0, host name), the name length, the name.
pub open spec fn server_name_extension(name: Seq<u8>) -> Seq<u8> {
    extension_bytes(0, be16_field(name.len() as int + 3) + seq![0u8] + be16_field(name.len() as int) + name)
}

/// A ClientHello record: `head` (the record header, the handshake header,
/// the client version and the random: 43 bytes), then the session id, the
/// cipher suites and the compression methods, each after its length, then
/// the extensions after their total length.
pub open spec fn client_hello_record(
    head: Seq<u8>,
    session_id: Seq<u8>,
    cipher_suites: Seq<u8>,
    compression: Seq<u8>,
    extensions: Seq<u8>,
) -> Seq<u8> {
    head + seq![session_id.len() as u8] + session_id + be16_field(cipher_suites.len() as int)
        + cipher_suites + seq![compression.len() as u8] + compression + be16_field(
        extensions.len() as int,
    ) + extensions
}

/// A two-byte field reads back as its value.
proof fn lemma_be16_field(d: Seq<u8>, i: int, v: int)
    requires
        0 <= v < 65536,
        0 <= i,
        i + 2 <= d.len(),
        d[i] == be16_field(v)[0],
        d[i + 1] == be16_field(v)[1],
    ensures
        be16_at(d, i) == v,
{
    assert(v / 256 < 256 && v % 256 < 256 && 0 <= v / 256 && 0 <= v % 256) by (nonlinear_arith)
        requires
            0 <= v < 65536,
    ;
    assert((v / 256) * 256 + v % 256 == v) by (nonlinear_arith);
}

/// Walking the extensions passes over those of other types and reads the
/// host name of the `server_name` extension after them.
proof fn lemma_walk_to_server_name(
    d: Seq<u8>,
    off: int,
    others: Seq<(u16, Seq<u8>)>,
    name: Seq<u8>,
)
    requires
        0 <= off,
        off + extensions_bytes(others).len() + server_name_extension(name).len() <= d.len(),
        forall|k: int|
            0 <= k < (extensions_bytes(others) + server_name_extension(name)).len() ==> d[off + k]
                == #[trigger] (extensions_bytes(others) + server_name_extension(name))[k],
        forall|i: int| 0 <= i < others.len() ==> (#[trigger] others[i]).0 != 0 && others[i].1.len() < 65536,
        name.len() + 3 < 65536,
        valid_utf8(name),
    ensures
        sni_in_extensions(
            d,
            off,
            off + extensions_bytes(others).len() + server_name_extension(name).len(),
        ) == Some(decode_utf8(name)),
    decreases others.len(),
{
    let sn = server_name_extension(name);
    let y = extensions_bytes(others) + sn;
    let limit: int = off + y.len() as int;
    if others.len() == 0 {
        assert(y =~= sn);
        let body = be16_field(name.len() as int + 3) + seq![0u8] + be16_field(name.len() as int) + name;
        assert(sn =~= be16_field(0) + be16_field(body.len() as int) + body);
        assert(d[off] == sn[0] && d[off + 1] == sn[1]);
        lemma_be16_field(d, off, 0);
        let list: int = off + 4;
        assert(d[list + 2] == sn[6]);
        assert(sn[6] == body[2]);
        assert(d[list + 3] == sn[7] && d[list + 4] == sn[8]);
        assert(sn[7] == body[3] && sn[8] == body[4]);
        lemma_be16_field(d, list + 3, name.len() as int);
        let start: int = list + 5;
        assert(d.subrange(start, start + name.len()) =~= name) by {
            assert forall|j: int| 0 <= j < name.len() implies d.subrange(start, start + name.len())[j]
                == name[j] by {
                assert(d[off + 9 + j] == y[9 + j]);
                assert(sn[9 + j] == body[5 + j]);
            }
        }
    } else {
        let o = others[0];
        let rest = others.drop_first();
        let e = extension_bytes(o.0, o.1);
        let y2 = extensions_bytes(rest) + sn;
        assert(y =~= e + y2);
        assert(d[off] == y[0] && d[off + 1] == y[1] && d[off + 2] == y[2] && d[off + 3] == y[3]);
        lemma_be16_field(d, off, o.0 as int);
        lemma_be16_field(d, off + 2, o.1.len() as int);
        let next: int = off + 4 + o.1.len() as int;
        assert forall|i: int| 0 <= i < rest.len() implies (#[trigger] rest[i]).0 != 0 && rest[i].1.len()
            < 65536 by {
            assert(rest[i] == others[i + 1]);
        }
        assert forall|k: int| 0 <= k < y2.len() implies d[next + k] == #[trigger] y2[k] by {
            assert(d[off + (e.len() + k)] == y[e.len() + k]);
        }
        lemma_walk_to_server_name(d, next, rest, name);
    }
}

/// The SNI is read past a session id of any length: for a ClientHello
/// record built from any 43-byte head (record type 0x16, handshake type 1),
/// session id, cipher suites and compression methods, whose extensions are
/// any extensions of other types followed by a `server_name` extension
/// naming the UTF-8 host name `name`, the server name read is `name`.
pub proof fn lemma_sni_of_client_hello(
    head: Seq<u8>,
    session_id: Seq<u8>,
    cipher_suites: Seq<u8>,
    compression: Seq<u8>,
    others: Seq<(u16, Seq<u8>)>,
    name: Seq<u8>,
)
    requires
        head.len() == 43,
        head[0] == 0x16,
        head[5] == 0x01,
        session_id.len() < 256,
        cipher_suites.len() < 65536,
        compression.len() < 256,
        forall|i: int| 0 <= i < others.len() ==> (#[trigger] others[i]).0 != 0 && others[i].1.len() < 65536,
        extensions_bytes(others).len() + server_name_extension(name).len() < 65536,
        valid_utf8(name),
    ensures
        client_hello_sni(
            client_hello_record(
                head,
                session_id,
                cipher_suites,
                compression,
                extensions_bytes(others) + server_name_extension(name),
            ),
        ) == Some(decode_utf8(name)),
{
    let ext = extensions_bytes(others) + server_name_extension(name);
    let p0 = head + seq![session_id.len() as u8] + session_id;
    let f1 = be16_field(cipher_suites.len() as int);
    let p1 = p0 + f1 + cipher_suites;
    let p2 = p1 + seq![compression.len() as u8] + compression;
    let f3 = be16_field(ext.len() as int);
    let d = p2 + f3 + ext;
    assert(d == client_hello_record(head, session_id, cipher_suites, compression, ext));
    assert(server_name_extension(name).len() >= 9);
    assert(name.len() + 3 < 65536);
    assert(d[0] == head[0] && d[5] == head[5]);
    assert(d[43] == session_id.len() as u8);
    assert(d[43] == session_id.len());
    let cs: int = 44 + session_id.len() as int;
    assert(cs == p0.len());
    assert(d[cs] == f1[0] && d[cs + 1] == f1[1]);
    lemma_be16_field(d, cs, cipher_suites.len() as int);
    let comp: int = cs + 2 + cipher_suites.len() as int;
    assert(comp == p1.len());
    assert(d[comp] == compression.len());
    let exts: int = comp + 1 + compression.len() as int;
    assert(exts == p2.len());
    assert(d[exts] == f3[0] && d[exts + 1] == f3[1]);
    lemma_be16_field(d, exts, ext.len() as int);
    let end: int = exts + 2 + ext.len() as int;
    assert(end == d.len());
    assert forall|k: int| 0 <= k < ext.len() implies d[exts + 2 + k] == #[trigger] ext[k] by {}
    lemma_walk_to_server_name(d, exts + 2, others, name);
}

/// Big-endian value of `data[i..i + 2]`.
fn read_be16(data: &[u8], i: usize) -> (v: usize)
    requires
        i + 2 <= data@.len(),
    ensures
        v == be16_at(data@, i as int),
{
    data[i] as usize * 256 + data[i + 1] as usize
}

/// Reads the server name (SNI) of a TLS ClientHello.
///
/// `None` when the bytes are not a ClientHello record, when a length points
/// past the data, or when no host name entry is found.
pub fn extract_sni_from_client_hello(data: &[u8]) -> (r: Option<String>)
    ensures
        match r {
            Some(s) => client_hello_sni(data@) == Some(s@),
            None => client_hello_sni(data@) is None,
        },
{
    let n = data.len();
    if n < 44 {
        return None;
    }
    if data[0] != 0x16 {
        return None;
    }
    if data[5] != 0x01 {
        return None;
    }
    let session_id_len = data[43] as usize;
    let cipher_suites_offset = 44 + session_id_len;
    if cipher_suites_offset + 2 > n {
        return None;
    }
    let cipher_suites_len = read_be16(data, cipher_suites_offset);
    // compression_offset + 2 > n, without overflow
    if cipher_suites_len + 2 > n - (cipher_suites_offset + 2) {
        return None;
    }
    let compression_offset = cipher_suites_offset + 2 + cipher_suites_len;
    let compression_len = data[compression_offset] as usize;
    // extensions_offset + 2 > n, without overflow
    if compression_len + 3 > n - compression_offset {
        return None;
    }
    let extensions_offset = compression_offset + 1 + compression_len;
    let extensions_total_len = read_be16(data, extensions_offset);
    let mut offset = extensions_offset + 2;
    let limit = if extensions_total_len < n - offset {
        offset + extensions_total_len
    } else {
        n
    };
    while offset <= limit && limit - offset >= 4
        invariant
            limit <= n,
            n == data@.len(),
            client_hello_sni(data@) == sni_in_extensions(data@, offset as int, limit as int),
        decreases limit - offset,
    {
        let ext_type = read_be16(data, offset);
        let ext_len = read_be16(data, offset + 2);
        if ext_type == 0 {
            let sni_list_offset = offset + 4;
            if 3 > n - sni_list_offset {
                return None;
            }
            let name_type = data[sni_list_offset + 2];
            if name_type != 0 {
                return None;
            }
            let name_len_offset = sni_list_offset + 3;
            if 2 > n - name_len_offset {
                return None;
            }
            let name_len = read_be16(data, name_len_offset);
            let name_start = name_len_offset + 2;
            if name_len > n - name_start {
                return None;
            }
            let name_bytes = &data[name_start..name_start + name_len];
            return match str_from_utf8(name_bytes) {
                Some(s) => {
                    proof {
                        lemma_str_chars_from_bytes(s, name_bytes@);
                    }
                    Some(owned(s))
                },
                None => None,
            };
        }
        if ext_len > limit - offset - 4 {
            proof {
                let next = offset + 4 + ext_len;
                assert(next + 4 > limit);
                assert(sni_in_extensions(data@, next, limit as int) is None);
            }
            return None;
        }
        offset = offset + 4 + ext_len;
    }
    None
}

} // verus!
