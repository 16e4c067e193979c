//! One running relay: its configuration and what it counts.

use vstd::prelude::*;

use crate::config::{
    http_head, ClientConfig, ClientConfigView, Config, ConfigView, ServerConfig, ServerConfigView,
};

verus! {

/// How many TCP connections each side has handled.
#[derive(Debug, Clone, Copy, PartialEq, Eq)]
pub struct Stats {
    pub client_handled_tcp_conn: usize,
    pub server_handled_tcp_conn: usize,
}

/// A counter after one more event; it starts over when it is full.
pub open spec fn counted(n: usize) -> usize {
    if n == usize::MAX {
        0
    } else {
        (n + 1) as usize
    }
}

impl Stats {
    pub fn new() -> (r: Stats)
        ensures
            r.client_handled_tcp_conn == 0,
            r.server_handled_tcp_conn == 0,
    {
        Stats { client_handled_tcp_conn: 0, server_handled_tcp_conn: 0 }
    }

    /// Counts a connection that the client has taken.
    pub fn count_client_conn(&mut self)
        ensures
            final(self).client_handled_tcp_conn == counted(old(self).client_handled_tcp_conn),
            final(self).server_handled_tcp_conn == old(self).server_handled_tcp_conn,
    {
        self.client_handled_tcp_conn = self.client_handled_tcp_conn.wrapping_add(1);
    }

    /// Counts a connection that the server was asked for.
    pub fn count_server_conn(&mut self)
        ensures
            final(self).client_handled_tcp_conn == old(self).client_handled_tcp_conn,
            final(self).server_handled_tcp_conn == counted(old(self).server_handled_tcp_conn),
    {
        self.server_handled_tcp_conn = self.server_handled_tcp_conn.wrapping_add(1);
    }
}

/// A relay that can be started.
#[derive(Debug)]
pub struct Instance {
    pub config: Config,
    pub stats: Stats,
}

/// One step of a start.
#[derive(Debug)]
pub enum StartStep {
    /// Start the server and go on while it runs.
    SpawnServer(ServerConfig),
    /// Wait a little.
    Pause { millis: u64 },
    /// Start the client and go on while it runs.
    SpawnClient(ClientConfig),
}

/// A [`StartStep`], mathematically.
#[verifier::ext_equal]
pub enum StartStepView {
    SpawnServer(ServerConfigView),
    Pause { millis: u64 },
    SpawnClient(ClientConfigView),
}

impl View for StartStep {
    type V = StartStepView;

    open spec fn view(&self) -> StartStepView {
        match *self {
            StartStep::SpawnServer(config) => StartStepView::SpawnServer(config@),
            StartStep::Pause { millis } => StartStepView::Pause { millis },
            StartStep::SpawnClient(config) => StartStepView::SpawnClient(config@),
        }
    }
}

/// The server first, if there is one, then a tenth of a second for it to come up,
/// then the client, if there is one; both with their HTTP heads made.
pub open spec fn start_plan(config: ConfigView) -> Seq<StartStepView> {
    let server = match config.server {
        Some(server) => seq![
            StartStepView::SpawnServer(
                ServerConfigView { http_response: http_head(server.http_response), ..server },
            ),
        ],
        None => Seq::empty(),
    };
    let client = match config.client {
        Some(client) => seq![
            StartStepView::SpawnClient(
                ClientConfigView { http_request: http_head(client.http_request), ..client },
            ),
        ],
        None => Seq::empty(),
    };
    server + seq![StartStepView::Pause { millis: 100 }] + client
}

impl Instance {
    /// Nothing is counted yet.
    pub fn new(config: Config) -> (r: Instance)
        ensures
            r.config == config,
            r.stats.client_handled_tcp_conn == 0,
            r.stats.server_handled_tcp_conn == 0,
    {
        Instance { config, stats: Stats::new() }
    }

    /// What to do to start, in order. Once it is done, the start waits for what it
    /// has spawned.
    pub fn start(&self) -> (steps: Vec<StartStep>)
        ensures
            steps@.map_values(|s: StartStep| s@) == start_plan(self.config@),
    {
        let mut steps: Vec<StartStep> = Vec::new();
        if let Some(server) = &self.config.server {
            steps.push(StartStep::SpawnServer(server.prepared()));
        }
        steps.push(StartStep::Pause { millis: 100 });
        if let Some(client) = &self.config.client {
            steps.push(StartStep::SpawnClient(client.prepared()));
        }
        assert(steps@.map_values(|s: StartStep| s@) =~= start_plan(self.config@));
        steps
    }
}

} // verus!
