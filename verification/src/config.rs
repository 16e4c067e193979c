//! Configuration, and what is made of it before the relay starts.

use vstd::prelude::*;
use vstd::utf8::{char_is_scalar, char_u32_cast, encode_scalar, encode_utf8};

use crate::stream::{
    body_start, law_body_start_stable, law_separator_found, law_separator_precedes_body,
    law_wait_goes_on, lemma_stray_byte_resets, matched_after, spells,
};

verus! {

/// The configuration of one process: it may be server, client or both.
#[derive(Debug)]
pub struct Config {
    pub server: Option<ServerConfig>,
    pub client: Option<ClientConfig>,
}

#[derive(Debug)]
pub struct ServerConfig {
    pub http_response: String,
    pub buffer_size: usize,
    pub inbound_addr: String,
    pub cert_pem_path: String,
    pub key_pem_path: String,
    pub separator: Vec<char>,
    pub udp_bind_addr: String,
}

#[derive(Debug)]
pub struct ClientConfig {
    pub http_request: String,
    pub buffer_size: usize,
    pub tx_sni: String,
    pub rx_sni: String,
    pub insecure_tls: bool,
    pub inbound_addr: String,
    pub outbound_addr: String,
    pub separator: Vec<char>,
    pub client_pool: usize,
    pub udp_bind_addr: String,
}

/// A [`ServerConfig`], mathematically.
#[verifier::ext_equal]
pub struct ServerConfigView {
    pub http_response: Seq<char>,
    pub buffer_size: usize,
    pub inbound_addr: Seq<char>,
    pub cert_pem_path: Seq<char>,
    pub key_pem_path: Seq<char>,
    pub separator: Seq<char>,
    pub udp_bind_addr: Seq<char>,
}

/// A [`ClientConfig`], mathematically.
#[verifier::ext_equal]
pub struct ClientConfigView {
    pub http_request: Seq<char>,
    pub buffer_size: usize,
    pub tx_sni: Seq<char>,
    pub rx_sni: Seq<char>,
    pub insecure_tls: bool,
    pub inbound_addr: Seq<char>,
    pub outbound_addr: Seq<char>,
    pub separator: Seq<char>,
    pub client_pool: usize,
    pub udp_bind_addr: Seq<char>,
}

/// A [`Config`], mathematically.
#[verifier::ext_equal]
pub struct ConfigView {
    pub server: Option<ServerConfigView>,
    pub client: Option<ClientConfigView>,
}

impl View for Config {
    type V = ConfigView;

    open spec fn view(&self) -> ConfigView {
        ConfigView {
            server: match self.server {
                Some(server) => Some(server@),
                None => None,
            },
            client: match self.client {
                Some(client) => Some(client@),
                None => None,
            },
        }
    }
}

impl View for ServerConfig {
    type V = ServerConfigView;

    open spec fn view(&self) -> ServerConfigView {
        ServerConfigView {
            http_response: self.http_response@,
            buffer_size: self.buffer_size,
            inbound_addr: self.inbound_addr@,
            cert_pem_path: self.cert_pem_path@,
            key_pem_path: self.key_pem_path@,
            separator: self.separator@,
            udp_bind_addr: self.udp_bind_addr@,
        }
    }
}

impl View for ClientConfig {
    type V = ClientConfigView;

    open spec fn view(&self) -> ClientConfigView {
        ClientConfigView {
            http_request: self.http_request@,
            buffer_size: self.buffer_size,
            tx_sni: self.tx_sni@,
            rx_sni: self.rx_sni@,
            insecure_tls: self.insecure_tls,
            inbound_addr: self.inbound_addr@,
            outbound_addr: self.outbound_addr@,
            separator: self.separator@,
            client_pool: self.client_pool,
            udp_bind_addr: self.udp_bind_addr@,
        }
    }
}

// ---------------------------------------------------------------------------
// HTTP heads
// ---------------------------------------------------------------------------

/// The characters with the Unicode property `White_Space`.
pub open spec fn is_white_space(c: char) -> bool {
    let n = c as u32;
    ||| 0x9 <= n <= 0xd
    ||| n == 0x20
    ||| n == 0x85
    ||| n == 0xa0
    ||| n == 0x1680
    ||| 0x2000 <= n <= 0x200a
    ||| n == 0x2028
    ||| n == 0x2029
    ||| n == 0x202f
    ||| n == 0x205f
    ||| n == 0x3000
}

pub open spec fn trim_start(s: Seq<char>) -> Seq<char>
    decreases s.len(),
{
    if s.len() > 0 && is_white_space(s[0]) {
        trim_start(s.drop_first())
    } else {
        s
    }
}

pub open spec fn trim_end(s: Seq<char>) -> Seq<char>
    decreases s.len(),
{
    if s.len() > 0 && is_white_space(s.last()) {
        trim_end(s.drop_last())
    } else {
        s
    }
}

/// `s` without the white space around it.
pub open spec fn trimmed(s: Seq<char>) -> Seq<char> {
    trim_end(trim_start(s))
}

/// `str::trim`: removes what has the Unicode property `White_Space` from both ends.
pub assume_specification[ str::trim ](s: &str) -> (r: &str)
    ensures
        r@ == trimmed(s@),
;

/// The end of an HTTP head.
pub open spec fn blank_line() -> Seq<char> {
    seq!['\r', '\n', '\r', '\n']
}

/// An HTTP head made of its lines: no white space around them, then the blank line.
pub open spec fn http_head(lines: Seq<char>) -> Seq<char> {
    trimmed(lines) + blank_line()
}

fn make_http_head(lines: &String) -> (r: String)
    ensures
        r@ == http_head(lines@),
{
    let mut head = lines.as_str().trim().to_owned();
    head.append("\r\n\r\n");
    proof {
        reveal_strlit("\r\n\r\n");
        assert("\r\n\r\n"@ =~= blank_line());
    }
    head
}

impl ServerConfig {
    /// The configuration that the server runs with: this one, with its response
    /// made an HTTP head.
    pub fn prepared(&self) -> (r: ServerConfig)
        ensures
            r@ == (ServerConfigView { http_response: http_head(self.http_response@), ..self@ }),
    {
        ServerConfig {
            http_response: make_http_head(&self.http_response),
            buffer_size: self.buffer_size,
            inbound_addr: self.inbound_addr.clone(),
            cert_pem_path: self.cert_pem_path.clone(),
            key_pem_path: self.key_pem_path.clone(),
            separator: self.separator.clone(),
            udp_bind_addr: self.udp_bind_addr.clone(),
        }
    }
}

impl ClientConfig {
    /// The configuration that the client runs with: this one, with its request
    /// made an HTTP head.
    pub fn prepared(&self) -> (r: ClientConfig)
        ensures
            r@ == (ClientConfigView { http_request: http_head(self.http_request@), ..self@ }),
    {
        ClientConfig {
            http_request: make_http_head(&self.http_request),
            buffer_size: self.buffer_size,
            tx_sni: self.tx_sni.clone(),
            rx_sni: self.rx_sni.clone(),
            insecure_tls: self.insecure_tls,
            inbound_addr: self.inbound_addr.clone(),
            outbound_addr: self.outbound_addr.clone(),
            separator: self.separator.clone(),
            client_pool: self.client_pool,
            udp_bind_addr: self.udp_bind_addr.clone(),
        }
    }
}

// ---------------------------------------------------------------------------
// The command line
// ---------------------------------------------------------------------------

/// What stands in front of the configuration's path on the command line.
pub open spec fn config_flag() -> Seq<char> {
    seq!['-', '-', 'c', 'o', 'n', 'f', 'i', 'g', '=']
}

/// What follows the prefix, if the string begins with it.
fn strip_prefix<'a>(s: &'a str, prefix: &str) -> (r: Option<&'a str>)
    ensures
        r is Some <==> prefix@.is_prefix_of(s@),
        r matches Some(t) ==> s@ == prefix@ + t@,
{
    let len: usize = prefix.unicode_len();
    let whole: usize = s.unicode_len();
    if whole < len {
        return None;
    }
    let mut i: usize = 0;
    while i < len
        invariant
            i <= len <= whole,
            len == prefix@.len(),
            whole == s@.len(),
            forall|j: int| 0 <= j < i ==> #[trigger] prefix@[j] == s@[j],
        decreases len - i,
    {
        if prefix.get_char(i) != s.get_char(i) {
            return None;
        }
        i = i + 1;
    }
    let rest = s.substring_char(len, whole);
    assert(s@ =~= prefix@ + rest@);
    Some(rest)
}

/// The path behind the first `--config=` among the arguments.
pub fn config_path(args: &Vec<String>) -> (r: Option<String>)
    ensures
        match r {
            Some(path) => exists|i: int|
                0 <= i < args@.len() && #[trigger] args@[i]@ == config_flag() + path@ && forall|
                    j: int,
                |
                    0 <= j < i ==> !config_flag().is_prefix_of(#[trigger] args@[j]@),
            None => forall|j: int|
                0 <= j < args@.len() ==> !config_flag().is_prefix_of(#[trigger] args@[j]@),
        },
{
    let flag = "--config=";
    proof {
        reveal_strlit("--config=");
        assert(flag@ =~= config_flag());
    }
    let mut i: usize = 0;
    while i < args.len()
        invariant
            i <= args@.len(),
            flag@ == config_flag(),
            forall|j: int| 0 <= j < i ==> !config_flag().is_prefix_of(#[trigger] args@[j]@),
        decreases args@.len() - i,
    {
        if let Some(path) = strip_prefix(args[i].as_str(), flag) {
            assert(args@[i as int]@ == config_flag() + path@);
            return Some(path.to_owned());
        }
        i = i + 1;
    }
    None
}

// ---------------------------------------------------------------------------
// Laws
// ---------------------------------------------------------------------------

proof fn lemma_trim_start(s: Seq<char>)
    ensures
        trim_start(s).len() > 0 ==> !is_white_space(trim_start(s)[0]),
        trim_start(s).len() <= s.len(),
        trim_start(s) == s.skip(s.len() - trim_start(s).len()),
    decreases s.len(),
{
    if s.len() > 0 && is_white_space(s[0]) {
        let t = s.drop_first();
        lemma_trim_start(t);
        assert(t.skip(t.len() - trim_start(t).len()) =~= s.skip(s.len() - trim_start(t).len()));
    } else {
        assert(s.skip(0) =~= s);
    }
}

proof fn lemma_trim_end(s: Seq<char>)
    ensures
        trim_end(s).len() > 0 ==> !is_white_space(trim_end(s).last()),
        trim_end(s).len() <= s.len(),
        trim_end(s) == s.take(trim_end(s).len() as int),
    decreases s.len(),
{
    if s.len() > 0 && is_white_space(s.last()) {
        let t = s.drop_last();
        lemma_trim_end(t);
        assert(t.take(trim_end(t).len() as int) =~= s.take(trim_end(t).len() as int));
    } else {
        assert(s.take(s.len() as int) =~= s);
    }
}

/// Trimmed text is part of the text and has no white space at its ends.
pub proof fn law_trimmed(s: Seq<char>)
    ensures
        trimmed(s).len() > 0 ==> !is_white_space(trimmed(s)[0]) && !is_white_space(
            trimmed(s).last(),
        ),
        exists|i: int, j: int|
            0 <= i <= j <= s.len() && trimmed(s) == #[trigger] s.subrange(i, j),
{
    let t = trim_start(s);
    lemma_trim_start(s);
    lemma_trim_end(t);
    let i = s.len() - t.len();
    let j = i + trimmed(s).len();
    assert(s.subrange(i, j) =~= trimmed(s));
}

proof fn lemma_encode_utf8_concat(a: Seq<char>, b: Seq<char>)
    ensures
        encode_utf8(a + b) == encode_utf8(a) + encode_utf8(b),
    decreases a.len(),
{
    if a.len() == 0 {
        assert(a + b =~= b);
        assert(encode_utf8(a) + encode_utf8(b) =~= encode_utf8(b));
    } else {
        assert((a + b).drop_first() =~= a.drop_first() + b);
        lemma_encode_utf8_concat(a.drop_first(), b);
        assert(encode_utf8(a + b) =~= encode_utf8(a) + encode_utf8(b));
    }
}

/// The bytes of a scalar are that scalar, if it is ASCII, or none of them is ASCII.
proof fn lemma_encode_scalar_ascii(n: u32)
    ensures
        n < 0x80 ==> encode_scalar(n) == seq![n as u8],
        n >= 0x80 ==> forall|k: int|
            0 <= k < encode_scalar(n).len() ==> #[trigger] encode_scalar(n)[k] >= 0x80,
{
    if n < 0x80 {
        assert((n & 0x7f) as u8 == n as u8) by (bit_vector)
            requires
                n < 0x80,
        ;
        assert(encode_scalar(n) =~= seq![n as u8]);
    } else {
        assert(0xC0u8 | ((n >> 6) & 0x1F) as u8 >= 0x80) by (bit_vector);
        assert(0xE0u8 | ((n >> 12) & 0x0F) as u8 >= 0x80) by (bit_vector);
        assert(0xF0u8 | ((n >> 18) & 0x7) as u8 >= 0x80) by (bit_vector);
        assert(0x80u8 | (n & 0x3F) as u8 >= 0x80) by (bit_vector);
        assert(0x80u8 | ((n >> 6) & 0x3F) as u8 >= 0x80) by (bit_vector);
        assert(0x80u8 | ((n >> 12) & 0x3F) as u8 >= 0x80) by (bit_vector);
    }
}

/// A byte that is an ASCII character is the encoding of that character.
proof fn lemma_ascii_byte(first: char, k: int, c: char)
    requires
        (c as u32) < 0x80,
        0 <= k < encode_scalar(first as u32).len(),
        encode_scalar(first as u32)[k] as char == c,
    ensures
        first == c,
        k == 0,
        encode_scalar(first as u32).len() == 1,
{
    let byte: u8 = encode_scalar(first as u32)[k];
    lemma_encode_scalar_ascii(first as u32);
    char_is_scalar(first);
    char_u32_cast(first, first as u32);
    char_u32_cast(c, c as u32);
    assert(byte as u32 == c as u32);
    assert(first as u32 == c as u32);
}

/// Text whose encoding begins with an ASCII character begins with it.
proof fn lemma_ascii_front(s: Seq<char>, c: char)
    requires
        (c as u32) < 0x80,
        encode_utf8(s).len() > 0,
        encode_utf8(s)[0] as char == c,
    ensures
        s.len() > 0,
        s[0] == c,
        encode_utf8(s).drop_first() == encode_utf8(s.drop_first()),
{
    lemma_ascii_byte(s[0], 0, c);
    assert(encode_utf8(s).drop_first() =~= encode_utf8(s.drop_first()));
}

/// Text whose encoding begins with the blank line begins with it.
proof fn lemma_blank_line_front(s: Seq<char>)
    requires
        encode_utf8(s).len() >= 4,
        spells(encode_utf8(s).take(4), blank_line()),
    ensures
        s.len() >= 4,
        s.subrange(0, 4) == blank_line(),
{
    let b = encode_utf8(s);
    let t1 = s.drop_first();
    let t2 = t1.drop_first();
    let t3 = t2.drop_first();
    let front = b.take(4);
    assert(front[0] as char == '\r');
    assert(front[1] as char == '\n');
    assert(front[2] as char == '\r');
    assert(front[3] as char == '\n');
    lemma_ascii_front(s, '\r');
    assert(encode_utf8(t1)[0] == b[1]);
    lemma_ascii_front(t1, '\n');
    assert(encode_utf8(t2)[0] == b[2]);
    lemma_ascii_front(t2, '\r');
    assert(encode_utf8(t3)[0] == b[3]);
    lemma_ascii_front(t3, '\n');
    assert(s.subrange(0, 4) =~= blank_line());
}

/// Text whose encoding holds the blank line holds it.
proof fn lemma_blank_line_within(s: Seq<char>, p: int) -> (i: int)
    requires
        0 <= p <= encode_utf8(s).len() - 4,
        spells(encode_utf8(s).subrange(p, p + 4), blank_line()),
    ensures
        0 <= i <= s.len() - 4,
        s.subrange(i, i + 4) == blank_line(),
    decreases s.len(),
{
    let b = encode_utf8(s);
    let piece = b.subrange(p, p + 4);
    assert(piece[0] as char == '\r');
    let front = encode_scalar(s[0] as u32);
    let t = s.drop_first();
    if p < front.len() {
        lemma_ascii_byte(s[0], p, '\r');
        assert(b.take(4) =~= piece);
        lemma_blank_line_front(s);
        0
    } else {
        assert(encode_utf8(t).subrange(p - front.len(), p - front.len() + 4) =~= piece);
        let i = lemma_blank_line_within(t, p - front.len());
        assert(s.subrange(i + 1, i + 5) =~= t.subrange(i, i + 4));
        i + 1
    }
}

/// Trimmed text does not end in a byte of the blank line.
proof fn lemma_trimmed_last_byte(lines: Seq<char>)
    requires
        trimmed(lines).len() > 0,
    ensures
        encode_utf8(trimmed(lines)).len() > 0,
        forall|i: int|
            0 <= i < 4 ==> #[trigger] blank_line()[i] != encode_utf8(
                trimmed(lines),
            ).last() as char,
{
    let text = trimmed(lines);
    let last = text.last();
    let bytes = encode_scalar(last as u32);
    law_trimmed(lines);
    lemma_encode_utf8_concat(text.drop_last(), seq![last]);
    assert(text.drop_last() + seq![last] =~= text);
    assert(seq![last].drop_first() =~= Seq::empty());
    assert(encode_utf8(seq![last]) =~= bytes) by {
        reveal_with_fuel(encode_utf8, 2);
    }
    assert(bytes.len() > 0);
    assert(encode_utf8(text).last() == bytes.last());
    assert forall|i: int| 0 <= i < 4 implies #[trigger] blank_line()[i] != encode_utf8(
        text,
    ).last() as char by {
        let c = blank_line()[i];
        assert(c == '\r' || c == '\n');
        if c == bytes.last() as char {
            lemma_ascii_byte(last, bytes.len() - 1, c);
            assert(is_white_space(last));
        }
    }
}

/// The bytes of the blank line.
pub open spec fn blank_line_bytes() -> Seq<u8> {
    seq![13u8, 10u8, 13u8, 10u8]
}

proof fn lemma_blank_line_bytes()
    ensures
        encode_utf8(blank_line()) == blank_line_bytes(),
        spells(blank_line_bytes(), blank_line()),
{
    lemma_encode_scalar_ascii(13);
    lemma_encode_scalar_ascii(10);
    reveal_with_fuel(encode_utf8, 5);
    let s0 = blank_line();
    let s1 = s0.drop_first();
    let s2 = s1.drop_first();
    let s3 = s2.drop_first();
    assert(s3.drop_first() =~= Seq::empty());
    assert(encode_utf8(s3) =~= seq![10u8]);
    assert(encode_utf8(s2) =~= seq![13u8, 10u8]);
    assert(encode_utf8(s1) =~= seq![10u8, 13u8, 10u8]);
    assert(encode_utf8(s0) =~= blank_line_bytes());
}

/// Whether the separator, where it is the blank line, is found within the lines of
/// a head already.
pub open spec fn ends_early(lines: Seq<char>) -> bool {
    body_start(blank_line(), 0, encode_utf8(trimmed(lines))) is Some
}

/// Where the separator is the blank line, a head is read to its end, and no
/// further, unless the separator is found within its lines: what follows the head
/// is the body.
pub proof fn law_head_is_read_whole(lines: Seq<char>, body: Seq<u8>)
    requires
        !ends_early(lines),
    ensures
        body_start(blank_line(), 0, encode_utf8(http_head(lines)) + body) == Some(
            encode_utf8(http_head(lines)).len(),
        ),
        (encode_utf8(http_head(lines)) + body).skip(encode_utf8(http_head(lines)).len() as int)
            == body,
{
    let text = encode_utf8(trimmed(lines));
    let rest = blank_line_bytes() + body;
    let all = encode_utf8(http_head(lines));
    lemma_encode_utf8_concat(trimmed(lines), blank_line());
    lemma_blank_line_bytes();
    assert(all + body =~= text + rest);
    assert((all + body).skip(all.len() as int) =~= body);
    law_wait_goes_on(blank_line(), 0, text, rest);
    if trimmed(lines).len() > 0 {
        lemma_trimmed_last_byte(lines);
        lemma_stray_byte_resets(blank_line(), 0, text);
    }
    assert(matched_after(blank_line(), 0, text) == 0);
    law_separator_found(blank_line(), Seq::empty(), blank_line_bytes(), body);
    assert(Seq::<u8>::empty() + blank_line_bytes() + body =~= rest);
}

/// A head in whose lines the separator is found is cut short there: the rest of
/// the head is taken for the body.
pub proof fn law_head_is_cut_short(lines: Seq<char>, body: Seq<u8>)
    requires
        ends_early(lines),
    ensures
        body_start(blank_line(), 0, encode_utf8(http_head(lines)) + body) matches Some(n) && n
            < encode_utf8(http_head(lines)).len(),
{
    let text = encode_utf8(trimmed(lines));
    let rest = blank_line_bytes() + body;
    lemma_encode_utf8_concat(trimmed(lines), blank_line());
    lemma_blank_line_bytes();
    assert(encode_utf8(http_head(lines)) + body =~= text + rest);
    law_separator_precedes_body(blank_line(), text);
    law_body_start_stable(blank_line(), 0, text, rest);
}

/// The separator is not found within lines that hold no blank line, however they
/// end.
pub proof fn law_lines_do_not_end_early(lines: Seq<char>)
    requires
        forall|i: int|
            0 <= i <= trimmed(lines).len() - 4 ==> #[trigger] trimmed(lines).subrange(i, i + 4)
                != blank_line(),
    ensures
        !ends_early(lines),
{
    let text = trimmed(lines);
    if ends_early(lines) {
        law_separator_precedes_body(blank_line(), encode_utf8(text));
        let n = body_start(blank_line(), 0, encode_utf8(text))->Some_0;
        let i = lemma_blank_line_within(text, n - 4);
        assert(text.subrange(i, i + 4) == blank_line());
    }
}

} // verus!
