//! The controller session workflow: log in once, then send one command per
//! target address in order, stopping at the first failure.
//!
//! The HTTP transport itself lives with the caller. A [`Run`] decides which
//! request goes next from the outcome of the previous one; the caller sends
//! each request it is handed on one cookie-keeping session and reports back.
use vstd::prelude::*;

use crate::config::UnifiConfig;
use crate::json::{json_object2, json_object2_text};
use crate::response::{classify, classify_spec, Outcome, TransportError};

verus! {

/// The command applied to every target station of a run.
#[derive(Debug, Clone, Copy, PartialEq, Eq, Structural)]
pub enum StationCommand {
    BlockStation,
    UnblockStation,
}

impl StationCommand {
    pub open spec fn spec_keyword(self) -> Seq<char> {
        match self {
            StationCommand::BlockStation => "block-sta"@,
            StationCommand::UnblockStation => "unblock-sta"@,
        }
    }

    /// The controller's keyword for this command.
    pub fn keyword(&self) -> (r: &'static str)
        ensures
            r@ == self.spec_keyword(),
    {
        match self {
            StationCommand::BlockStation => {
                proof {
                    reveal_strlit("block-sta");
                }
                "block-sta"
            },
            StationCommand::UnblockStation => {
                proof {
                    reveal_strlit("unblock-sta");
                }
                "unblock-sta"
            },
        }
    }
}

/// One form-encoded POST to the controller.
#[derive(Debug)]
pub struct Request {
    pub url: String,
    pub body: String,
}

pub open spec fn login_url(base_url: Seq<char>) -> Seq<char> {
    base_url + "/api/login"@
}

pub open spec fn station_url(base_url: Seq<char>, site: Seq<char>) -> Seq<char> {
    base_url + "/api/s/"@ + site + "/cmd/stamgr"@
}

pub open spec fn login_body(user: Seq<char>, password: Seq<char>) -> Seq<char> {
    json_object2("username"@, user, "password"@, password)
}

pub open spec fn command_body(command: StationCommand, mac: Seq<char>) -> Seq<char> {
    json_object2("cmd"@, command.spec_keyword(), "mac"@, mac)
}

/// The login request: the credentials, posted to `<base_url>/api/login`.
pub fn login_request(base_url: &str, user: &str, password: &str) -> (r: Request)
    ensures
        r.url@ == login_url(base_url@),
        r.body@ == login_body(user@, password@),
{
    proof {
        reveal_strlit("/api/login");
        reveal_strlit("username");
        reveal_strlit("password");
    }
    let mut url = String::from_str(base_url);
    url.append("/api/login");
    let body = json_object2_text("username", user, "password", password);
    Request { url, body }
}

/// The endpoint of station commands, `<base_url>/api/s/<site>/cmd/stamgr`.
pub fn station_endpoint(base_url: &str, site: &str) -> (r: String)
    ensures
        r@ == station_url(base_url@, site@),
{
    proof {
        reveal_strlit("/api/s/");
        reveal_strlit("/cmd/stamgr");
    }
    let mut url = String::from_str(base_url);
    url.append("/api/s/");
    url.append(site);
    url.append("/cmd/stamgr");
    url
}

/// The command request for one station address, posted to `endpoint`.
pub fn command_request(endpoint: &str, command: StationCommand, mac: &str) -> (r: Request)
    ensures
        r.url@ == endpoint@,
        r.body@ == command_body(command, mac@),
{
    proof {
        reveal_strlit("cmd");
        reveal_strlit("mac");
    }
    let body = json_object2_text("cmd", command.keyword(), "mac", mac);
    Request { url: String::from_str(endpoint), body }
}

/// How the HTTP transport of a run is set up.
#[derive(Debug, Clone, Copy, PartialEq, Eq, Structural)]
pub struct ClientSettings {
    /// Keep cookies across requests, so that the login session carries over.
    pub cookie_store: bool,
    /// Ask for compressed responses.
    pub gzip: bool,
    /// Send small packets without delay.
    pub tcp_nodelay: bool,
    /// Write header names in title case.
    pub title_case_headers: bool,
    /// Accept certificates that do not verify, as self-signed ones.
    pub accept_invalid_certs: bool,
}

/// The transport settings of a run: cookies kept, no compression, no delay,
/// and certificate checks relaxed only where the configuration asks for it.
pub fn client_settings(config: &UnifiConfig) -> (r: ClientSettings)
    ensures
        r.cookie_store,
        !r.gzip,
        r.tcp_nodelay,
        r.title_case_headers,
        r.accept_invalid_certs == config.accept_invalid_certs,
{
    ClientSettings {
        cookie_store: true,
        gzip: false,
        tcp_nodelay: true,
        title_case_headers: true,
        accept_invalid_certs: config.accept_invalid_certs,
    }
}

/// How far a run has come.
#[derive(Debug, Clone, Copy, PartialEq, Eq, Structural)]
pub enum Phase {
    /// The login request is awaiting its outcome.
    LoggingIn,
    /// The command for the address at this position is awaiting its outcome.
    Commanding(usize),
    /// The run is over; nothing more is sent.
    Finished,
}

/// What the caller does next.
#[derive(Debug)]
pub enum Step {
    /// Send this request and report its outcome.
    Send(Request),
    /// Stop: the run ended with this result.
    Finished(Result<(), TransportError>),
}

/// The phase that follows `phase` when its request had outcome `o`, for a run
/// over `n` addresses.
pub open spec fn next_phase(phase: Phase, n: nat, o: Outcome) -> Phase {
    if classify_spec(o) is Err {
        Phase::Finished
    } else {
        match phase {
            Phase::LoggingIn => if n == 0 {
                Phase::Finished
            } else {
                Phase::Commanding(0)
            },
            Phase::Commanding(i) => if i + 1 < n {
                Phase::Commanding((i + 1) as usize)
            } else {
                Phase::Finished
            },
            Phase::Finished => Phase::Finished,
        }
    }
}

/// The state of one run: the command, the endpoint and the addresses in
/// order, and how far the run has come.
pub struct Run {
    pub command: StationCommand,
    pub endpoint: String,
    pub macs: Vec<String>,
    pub phase: Phase,
}

impl Run {
    pub open spec fn wf(&self) -> bool {
        self.phase matches Phase::Commanding(i) ==> i < self.macs@.len()
    }

    /// Starts a run: returns its state and the login request, which goes first.
    pub fn start(command: StationCommand, config: UnifiConfig) -> (r: (Run, Request))
        requires
            config.user is Some,
            config.password is Some,
        ensures
            r.0.wf(),
            r.0.phase == Phase::LoggingIn,
            r.0.command == command,
            r.0.macs == config.client_macs,
            r.0.endpoint@ == station_url(config.base_url@, config.site@),
            r.1.url@ == login_url(config.base_url@),
            r.1.body@ == login_body(config.user->0@, config.password->0@),
    {
        let login = login_request(
            config.base_url.as_str(),
            config.user.as_ref().unwrap().as_str(),
            config.password.as_ref().unwrap().as_str(),
        );
        let endpoint = station_endpoint(config.base_url.as_str(), config.site.as_str());
        (Run { command, endpoint, macs: config.client_macs, phase: Phase::LoggingIn }, login)
    }

    /// Takes the outcome of the request that is awaiting one, and says what
    /// to do next: on success, send the command for the next address, or
    /// finish with success after the last; on failure, finish with that
    /// failure and send nothing more.
    pub fn on_outcome(&mut self, o: Outcome) -> (r: Step)
        requires
            old(self).wf(),
            !(old(self).phase is Finished),
        ensures
            final(self).wf(),
            final(self).command == old(self).command,
            final(self).endpoint == old(self).endpoint,
            final(self).macs == old(self).macs,
            final(self).phase == next_phase(old(self).phase, old(self).macs@.len(), o),
            final(self).phase matches Phase::Commanding(j) ==> (r matches Step::Send(req)
                && req.url@ == old(self).endpoint@ && req.body@ == command_body(
                old(self).command,
                old(self).macs@[j as int]@,
            )),
            final(self).phase is Finished ==> r == Step::Finished(classify_spec(o)),
    {
        let res = classify(o);
        let next = match res {
            Err(_) => Phase::Finished,
            Ok(()) => match self.phase {
                Phase::LoggingIn => if self.macs.len() == 0 {
                    Phase::Finished
                } else {
                    Phase::Commanding(0)
                },
                Phase::Commanding(i) => if i < self.macs.len() - 1 {
                    Phase::Commanding(i + 1)
                } else {
                    Phase::Finished
                },
                Phase::Finished => Phase::Finished,
            },
        };
        self.phase = next;
        match next {
            Phase::Commanding(j) => Step::Send(
                command_request(self.endpoint.as_str(), self.command, self.macs[j].as_str()),
            ),
            _ => Step::Finished(res),
        }
    }
}

/// The run from `phase` on, when the requests that it sends meet the
/// outcomes `os` in turn: the positions of the addresses commanded, and the
/// result once the run finishes (`None` while outcomes run out first).
pub open spec fn run_model(phase: Phase, n: nat, os: Seq<Outcome>) -> (Seq<int>, Option<
    Result<(), TransportError>,
>)
    decreases os.len(),
{
    if phase is Finished || os.len() == 0 {
        (Seq::empty(), None)
    } else {
        match next_phase(phase, n, os[0]) {
            Phase::Commanding(j) => {
                let rest = run_model(Phase::Commanding(j), n, os.drop_first());
                (seq![j as int] + rest.0, rest.1)
            },
            _ => (Seq::empty(), Some(classify_spec(os[0]))),
        }
    }
}

/// The phase in which the request at position `p` awaits its outcome: the
/// login at position 0, the command for address `p - 1` after it.
pub open spec fn phase_at(p: nat) -> Phase {
    if p == 0 {
        Phase::LoggingIn
    } else {
        Phase::Commanding((p - 1) as usize)
    }
}

proof fn lemma_stops_from(p: nat, n: nat, os: Seq<Outcome>, f: int)
    requires
        n <= usize::MAX,
        0 <= f < os.len(),
        p + f <= n,
        classify_spec(os[f]) is Err,
        forall|k: int| 0 <= k < f ==> (#[trigger] classify_spec(os[k])) is Ok,
    ensures
        run_model(phase_at(p), n, os) == (Seq::new(f as nat, |k: int| p + k), Some(
            classify_spec(os[f]),
        )),
    decreases f,
{
    if f == 0 {
        assert(Seq::new(0, |k: int| p + k) =~= Seq::<int>::empty());
    } else {
        assert(classify_spec(os[0]) is Ok);
        assert(next_phase(phase_at(p), n, os[0]) == phase_at(p + 1));
        let rest = os.drop_first();
        assert forall|k: int| 0 <= k < f - 1 implies (#[trigger] classify_spec(rest[k])) is Ok by {
            assert(rest[k] == os[k + 1]);
        }
        lemma_stops_from(p + 1, n, rest, f - 1);
        assert(seq![p as int] + Seq::new((f - 1) as nat, |k: int| (p + 1) + k) =~= Seq::new(
            f as nat,
            |k: int| p + k,
        ));
    }
}

proof fn lemma_completes_from(p: nat, n: nat, os: Seq<Outcome>)
    requires
        n <= usize::MAX,
        p <= n,
        os.len() > n - p,
        forall|k: int| 0 <= k <= n - p ==> (#[trigger] classify_spec(os[k])) is Ok,
    ensures
        run_model(phase_at(p), n, os) == (Seq::new((n - p) as nat, |k: int| p + k), Some(
            Ok::<(), TransportError>(()),
        )),
    decreases n - p,
{
    assert(classify_spec(os[0]) is Ok);
    if p == n {
        assert(next_phase(phase_at(p), n, os[0]) is Finished);
        assert(Seq::new(0, |k: int| p + k) =~= Seq::<int>::empty());
    } else {
        assert(next_phase(phase_at(p), n, os[0]) == phase_at(p + 1));
        let rest = os.drop_first();
        assert forall|k: int| 0 <= k <= n - (p + 1) implies (#[trigger] classify_spec(
            rest[k],
        )) is Ok by {
            assert(rest[k] == os[k + 1]);
        }
        lemma_completes_from(p + 1, n, rest);
        assert(seq![p as int] + Seq::new((n - (p + 1)) as nat, |k: int| (p + 1) + k) =~= Seq::new(
            (n - p) as nat,
            |k: int| p + k,
        ));
    }
}

/// Fail fast: when the outcome at position `f` is the first failure (the
/// login at position 0, the command for address `f - 1` after it), a run over
/// `n` addresses commands exactly the addresses before position `f - 1`, in
/// order, never one after it, and finishes with that failure. A failed login
/// thus sends no command at all.
pub proof fn lemma_run_stops_at_first_failure(n: nat, os: Seq<Outcome>, f: int)
    requires
        n <= usize::MAX,
        0 <= f < os.len(),
        f <= n,
        classify_spec(os[f]) is Err,
        forall|k: int| 0 <= k < f ==> (#[trigger] classify_spec(os[k])) is Ok,
    ensures
        run_model(Phase::LoggingIn, n, os) == (Seq::new(f as nat, |k: int| k), Some(
            classify_spec(os[f]),
        )),
{
    lemma_stops_from(0, n, os, f);
    assert(Seq::new(f as nat, |k: int| 0 + k) =~= Seq::new(f as nat, |k: int| k));
}

/// When the login and every command succeed, a run over `n` addresses
/// commands each address once, in order, and finishes with success; with no
/// addresses it sends no command and still succeeds.
pub proof fn lemma_run_commands_every_address(n: nat, os: Seq<Outcome>)
    requires
        n <= usize::MAX,
        os.len() > n,
        forall|k: int| 0 <= k <= n ==> (#[trigger] classify_spec(os[k])) is Ok,
    ensures
        run_model(Phase::LoggingIn, n, os) == (Seq::new(n, |k: int| k), Some(
            Ok::<(), TransportError>(()),
        )),
{
    lemma_completes_from(0, n, os);
    assert(Seq::new(n, |k: int| 0 + k) =~= Seq::new(n, |k: int| k));
}

} // verus!
