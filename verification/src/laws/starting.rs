//! What the configuration is made into before the relay starts.

use vstd::prelude::*;

use crate::config::{
    blank_line, config_flag, http_head, is_white_space, trim_end, trim_start, trimmed,
    ClientConfig, ClientConfigView, Config, ConfigView, ServerConfig, ServerConfigView,
};
use crate::instance::{start_plan, StartStep, StartStepView};

verus! {

/// The view of a server's configuration keeps all of it.
pub proof fn law_server_config_view(c: ServerConfig)
    ensures
        c@.http_response == c.http_response@,
        c@.buffer_size == c.buffer_size,
        c@.inbound_addr == c.inbound_addr@,
        c@.cert_pem_path == c.cert_pem_path@,
        c@.key_pem_path == c.key_pem_path@,
        c@.separator == c.separator@,
        c@.udp_bind_addr == c.udp_bind_addr@,
{
}

/// The view of a client's configuration keeps all of it.
pub proof fn law_client_config_view(c: ClientConfig)
    ensures
        c@.http_request == c.http_request@,
        c@.buffer_size == c.buffer_size,
        c@.tx_sni == c.tx_sni@,
        c@.rx_sni == c.rx_sni@,
        c@.insecure_tls == c.insecure_tls,
        c@.inbound_addr == c.inbound_addr@,
        c@.outbound_addr == c.outbound_addr@,
        c@.separator == c.separator@,
        c@.client_pool == c.client_pool,
        c@.udp_bind_addr == c.udp_bind_addr@,
{
}

/// The view of a configuration keeps both sides.
pub proof fn law_config_view(c: Config)
    ensures
        c.server is Some <==> c@.server is Some,
        c.client is Some <==> c@.client is Some,
        c.server matches Some(server) ==> c@.server == Some(server@),
        c.client matches Some(client) ==> c@.client == Some(client@),
{
}

/// The view of a step keeps all of it.
pub proof fn law_start_step_view(s: StartStep)
    ensures
        match s {
            StartStep::SpawnServer(c) => s@ == StartStepView::SpawnServer(c@),
            StartStep::Pause { millis } => s@ == (StartStepView::Pause { millis }),
            StartStep::SpawnClient(c) => s@ == StartStepView::SpawnClient(c@),
        },
{
}

/// White space is this and nothing else.
pub proof fn law_white_space(c: char)
    ensures
        is_white_space(c) <==> '\t' <= c <= '\r' || c == ' ' || c == '\u{85}' || c == '\u{a0}' || c
            == '\u{1680}' || '\u{2000}' <= c <= '\u{200a}' || c == '\u{2028}' || c == '\u{2029}'
            || c == '\u{202f}' || c == '\u{205f}' || c == '\u{3000}',
{
}

proof fn lemma_trim_start(s: Seq<char>)
    ensures
        trim_start(s).len() <= s.len(),
        trim_start(s) == s.skip(s.len() - trim_start(s).len()),
        trim_start(s).len() > 0 ==> !is_white_space(trim_start(s)[0]),
        forall|k: int| 0 <= k < s.len() - trim_start(s).len() ==> is_white_space(#[trigger] s[k]),
    decreases s.len(),
{
    if s.len() > 0 && is_white_space(s[0]) {
        let t = s.drop_first();
        lemma_trim_start(t);
        assert(t.skip(t.len() - trim_start(t).len()) =~= s.skip(s.len() - trim_start(t).len()));
        assert forall|k: int| 0 <= k < s.len() - trim_start(s).len() implies is_white_space(
            #[trigger] s[k],
        ) by {
            if k > 0 {
                assert(is_white_space(t[k - 1]));
            }
        }
    } else {
        assert(s.skip(0) =~= s);
    }
}

proof fn lemma_trim_end(s: Seq<char>)
    ensures
        trim_end(s).len() <= s.len(),
        trim_end(s) == s.take(trim_end(s).len() as int),
        trim_end(s).len() > 0 ==> !is_white_space(trim_end(s).last()),
        forall|k: int| trim_end(s).len() <= k < s.len() ==> is_white_space(#[trigger] s[k]),
    decreases s.len(),
{
    if s.len() > 0 && is_white_space(s.last()) {
        let t = s.drop_last();
        lemma_trim_end(t);
        assert(t.take(trim_end(t).len() as int) =~= s.take(trim_end(t).len() as int));
        assert forall|k: int| trim_end(s).len() <= k < s.len() implies is_white_space(
            #[trigger] s[k],
        ) by {
            if k < t.len() {
                assert(is_white_space(t[k]));
            }
        }
    } else {
        assert(s.take(s.len() as int) =~= s);
    }
}

/// Trimming takes away white space at the ends, all of it, and nothing else.
pub proof fn law_only_white_space_is_trimmed(s: Seq<char>)
    ensures
        exists|i: int, j: int|
            {
                &&& 0 <= i <= j <= s.len()
                &&& trimmed(s) == #[trigger] s.subrange(i, j)
                &&& forall|k: int|
                    0 <= k < i || j <= k < s.len() ==> is_white_space(#[trigger] s[k])
                &&& i < j ==> !is_white_space(s[i]) && !is_white_space(s[j - 1])
            },
{
    let t = trim_start(s);
    lemma_trim_start(s);
    lemma_trim_end(t);
    let i = s.len() - t.len();
    let j = i + trimmed(s).len();
    assert(s.subrange(i, j) =~= trimmed(s));
    assert forall|k: int| 0 <= k < i || j <= k < s.len() implies is_white_space(
        #[trigger] s[k],
    ) by {
        if k >= j {
            assert(is_white_space(t[k - i]));
        }
    }
}

/// A head is its trimmed lines and then a blank line.
pub proof fn law_head_ends_in_blank_line(lines: Seq<char>)
    ensures
        ({
            let head = http_head(lines);
            let n = trimmed(lines).len() as int;
            &&& head.len() == n + 4
            &&& head.take(n) == trimmed(lines)
            &&& head[n] == '\r' && head[n + 1] == '\n' && head[n + 2] == '\r' && head[n + 3]
                == '\n'
        }),
        blank_line() == seq!['\r', '\n', '\r', '\n'],
{
    assert(http_head(lines).take(trimmed(lines).len() as int) =~= trimmed(lines));
}

/// The flag in front of the configuration's path.
pub proof fn law_config_flag()
    ensures
        config_flag() == "--config="@,
{
    reveal_strlit("--config=");
    assert(config_flag() =~= "--config="@);
}

/// Whether the server runs with this configuration, apart from its HTTP head.
pub open spec fn same_server(a: ServerConfigView, b: ServerConfigView) -> bool {
    &&& a.buffer_size == b.buffer_size
    &&& a.inbound_addr == b.inbound_addr
    &&& a.cert_pem_path == b.cert_pem_path
    &&& a.key_pem_path == b.key_pem_path
    &&& a.separator == b.separator
    &&& a.udp_bind_addr == b.udp_bind_addr
}

/// Whether the client runs with this configuration, apart from its HTTP head.
pub open spec fn same_client(a: ClientConfigView, b: ClientConfigView) -> bool {
    &&& a.buffer_size == b.buffer_size
    &&& a.tx_sni == b.tx_sni
    &&& a.rx_sni == b.rx_sni
    &&& a.insecure_tls == b.insecure_tls
    &&& a.inbound_addr == b.inbound_addr
    &&& a.outbound_addr == b.outbound_addr
    &&& a.separator == b.separator
    &&& a.client_pool == b.client_pool
    &&& a.udp_bind_addr == b.udp_bind_addr
}

/// A start waits a tenth of a second, once. Before that it starts the server, if
/// there is one, after that the client, if there is one, and each runs as it is
/// configured: only the HTTP head is made, out of the lines that were given.
pub proof fn law_start_follows_configuration(config: ConfigView)
    ensures
        ({
            let plan = start_plan(config);
            let servers: int = if config.server is Some {
                1
            } else {
                0
            };
            let clients: int = if config.client is Some {
                1
            } else {
                0
            };
            &&& plan.len() == servers + 1 + clients
            &&& plan[servers] == (StartStepView::Pause { millis: 100 })
            &&& config.server matches Some(c) ==> plan[0] matches StartStepView::SpawnServer(s)
                && same_server(s, c) && s.http_response == trimmed(c.http_response) + seq![
                '\r',
                '\n',
                '\r',
                '\n',
            ]
            &&& config.client matches Some(c) ==> plan.last() matches StartStepView::SpawnClient(s)
                && same_client(s, c) && s.http_request == trimmed(c.http_request) + seq![
                '\r',
                '\n',
                '\r',
                '\n',
            ]
        }),
{
}

} // verus!
