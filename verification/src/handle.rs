//! Whether the server runs, and where.

use vstd::prelude::*;
use vstd::string::*;

use crate::config::{addr_text, ServerConfig, SocketAddr};

verus! {

/// The state of the server, kept so that the settings can start and stop it
/// without restarting the application. `S` is the signal that shuts a running
/// server down.
///
/// Every server that is started has a generation of its own, by which its end
/// is told from the end of the one that it replaced: a server that was told to
/// shut down may take its time.
pub struct ServerHandle<S> {
    running: bool,
    addr: Option<SocketAddr>,
    shutdown: Option<S>,
    generation: u64,
}

/// What a [`ServerHandle`] holds.
pub ghost struct ServerHandleView<S> {
    pub running: bool,
    pub addr: Option<SocketAddr>,
    pub shutdown: Option<S>,
    /// The generation of the server that was started last.
    pub generation: u64,
}

impl<S> ServerHandleView<S> {
    /// Whether the handle names an address exactly while the server runs.
    pub open spec fn is_consistent(self) -> bool {
        self.running <==> self.addr is Some
    }
}

impl<S> View for ServerHandle<S> {
    type V = ServerHandleView<S>;

    closed spec fn view(&self) -> ServerHandleView<S> {
        ServerHandleView {
            running: self.running,
            addr: self.addr,
            shutdown: self.shutdown,
            generation: self.generation,
        }
    }
}

/// A handle on no server, after one of a generation.
pub open spec fn stopped<S>(generation: u64) -> ServerHandleView<S> {
    ServerHandleView { running: false, addr: None, shutdown: None, generation }
}

/// A handle on a server of a generation that accepts connections at an address.
pub open spec fn serving<S>(addr: SocketAddr, shutdown: S, generation: u64) -> ServerHandleView<S> {
    ServerHandleView { running: true, addr: Some(addr), shutdown: Some(shutdown), generation }
}

/// The generation after another. After the last there is, they begin anew.
pub open spec fn next_generation(generation: u64) -> u64 {
    if generation < u64::MAX {
        (generation + 1) as u64
    } else {
        0
    }
}

/// Leave to bind an address, which only [`ServerHandle::vacate`] gives, so
/// that no server is started before its predecessor was stopped.
pub struct Vacancy {
    generation: u64,
}

impl View for Vacancy {
    type V = u64;

    /// The generation that was stopped.
    closed spec fn view(&self) -> u64 {
        self.generation
    }
}

impl<S> Default for ServerHandle<S> {
    fn default() -> (h: Self)
        ensures
            h@ == stopped::<S>(0),
    {
        ServerHandle::new()
    }
}

impl<S> ServerHandle<S> {
    /// A handle on no server.
    pub fn new() -> (h: Self)
        ensures
            h@ == stopped::<S>(0),
    {
        ServerHandle { running: false, addr: None, shutdown: None, generation: 0 }
    }

    /// Whether a server accepts connections.
    pub fn is_running(&self) -> (r: bool)
        ensures
            r == self@.running,
    {
        self.running
    }

    /// The address actually bound, while the server runs.
    pub fn bound_addr(&self) -> (r: Option<SocketAddr>)
        ensures
            r == self@.addr,
    {
        self.addr
    }

    /// Forgets a running server and gives the signal that shuts it down, which
    /// the caller sends. Stopping a stopped server is fine, and gives none.
    pub fn stop(&mut self) -> (r: Option<S>)
        ensures
            (final(self)@, r) == after_stop(old(self)@),
    {
        let signal = self.shutdown.take();
        self.running = false;
        self.addr = None;
        signal
    }

    /// Stops a running server to make room for its successor: besides the
    /// signal that shuts it down, gives leave to [`start`] another.
    pub fn vacate(&mut self) -> (r: (Option<S>, Vacancy))
        ensures
            (final(self)@, r.0) == after_stop(old(self)@),
            r.1@ == old(self)@.generation,
    {
        let signal = self.stop();
        (signal, Vacancy { generation: self.generation })
    }

    /// Notes that the server of a generation no longer accepts connections:
    /// it has ended by itself, or has finished shutting down. If another
    /// server was started since, the handle is on that one, and stays so.
    pub fn served(&mut self, generation: u64)
        ensures
            final(self)@ == after_served(old(self)@, generation),
    {
        if generation == self.generation {
            self.running = false;
            self.addr = None;
        }
    }

    fn give_up(&mut self, vacancy: Vacancy)
        ensures
            final(self)@ == (if vacancy@ == old(self)@.generation {
                stopped(old(self)@.generation)
            } else {
                old(self)@
            }),
    {
        if vacancy.generation == self.generation {
            self.running = false;
            self.addr = None;
            self.shutdown = None;
        }
    }

    fn record(&mut self, addr: SocketAddr, shutdown: S)
        ensures
            final(self)@ == serving(addr, shutdown, next_generation(old(self)@.generation)),
    {
        self.generation = if self.generation < u64::MAX {
            self.generation + 1
        } else {
            0
        };
        self.shutdown = Some(shutdown);
        self.addr = Some(addr);
        self.running = true;
    }
}

/// A handle that is stopped, and the signal that shuts down its server.
pub open spec fn after_stop<S>(h: ServerHandleView<S>) -> (ServerHandleView<S>, Option<S>) {
    (stopped(h.generation), h.shutdown)
}

/// A handle once the server of a generation no longer accepts connections.
pub open spec fn after_served<S>(h: ServerHandleView<S>, generation: u64) -> ServerHandleView<S> {
    if generation == h.generation {
        ServerHandleView { running: false, addr: None, ..h }
    } else {
        h
    }
}

/// What came of binding the configured address.
#[derive(Debug)]
pub enum BindOutcome {
    /// A listener, and the address that it reports.
    Bound(SocketAddr),
    /// No listener, and the system's own words.
    Refused(String),
    /// A listener that cannot tell its address, and the system's own words.
    Unnamed(String),
}

/// What a failed bind is reported as.
pub open spec fn bind_message(addr: SocketAddr, why: Seq<char>) -> Seq<char> {
    "could not bind "@ + addr_text(addr) + ": "@ + why
        + " (is another Handy or service already on that port?)"@
}

/// What starting a server on a configured address comes to: the address that
/// is bound and the generation of the server, or what to report.
pub open spec fn start_verdict(addr: SocketAddr, outcome: BindOutcome, generation: u64) -> Result<
    (SocketAddr, u64),
    Seq<char>,
> {
    match outcome {
        BindOutcome::Bound(bound) => Ok((bound, next_generation(generation))),
        BindOutcome::Refused(why) => Err(bind_message(addr, why@)),
        BindOutcome::Unnamed(why) => Err(why@),
    }
}

/// A handle after a start: on the new server if there is one, and on none
/// otherwise, unless yet another server was started since the handle was
/// vacated. That one is left alone by a start that fails.
pub open spec fn after_start<S>(
    h: ServerHandleView<S>,
    vacated: u64,
    outcome: BindOutcome,
    shutdown: S,
) -> ServerHandleView<S> {
    match outcome {
        BindOutcome::Bound(addr) => serving(addr, shutdown, next_generation(h.generation)),
        _ => if vacated == h.generation {
            stopped(h.generation)
        } else {
            h
        },
    }
}

/// A start seen as characters.
pub open spec fn start_seen(r: Result<(SocketAddr, u64), String>) -> Result<
    (SocketAddr, u64),
    Seq<char>,
> {
    match r {
        Ok(started) => Ok(started),
        Err(why) => Err(why@),
    }
}

/// Starts the server on what came of binding its address, and gives the
/// address that is bound and the generation to report to
/// [`ServerHandle::served`] when the server has ended. The vacancy shows that
/// a server that ran before was stopped before the bind, so that it does not
/// hold the port.
///
/// Succeeds only once the listener is bound, so that a caller who reports
/// success reports a port that accepts connections.
pub fn start<S>(
    handle: &mut ServerHandle<S>,
    vacancy: Vacancy,
    config: &ServerConfig,
    outcome: BindOutcome,
    shutdown: S,
) -> (r: Result<(SocketAddr, u64), String>)
    ensures
        start_seen(r) == start_verdict(config.addr, outcome, old(handle)@.generation),
        final(handle)@ == after_start(old(handle)@, vacancy@, outcome, shutdown),
        r matches Ok(started) ==> started.1 == final(handle)@.generation && started.1
            != old(handle)@.generation,
        r is Ok && old(handle)@.generation < u64::MAX ==> final(handle)@.generation > old(
            handle,
        )@.generation,
{
    match outcome {
        BindOutcome::Bound(addr) => {
            handle.record(addr, shutdown);
            Ok((addr, handle.generation))
        },
        BindOutcome::Refused(why) => {
            handle.give_up(vacancy);
            let mut m = "could not bind ".to_owned();
            let addr = config.addr.text();
            m.append(addr.as_str());
            m.append(": ");
            m.append(why.as_str());
            m.append(" (is another Handy or service already on that port?)");
            Err(m)
        },
        BindOutcome::Unnamed(why) => {
            handle.give_up(vacancy);
            Err(why)
        },
    }
}

/// Stopping leaves no server behind, whatever ran, and gives the very signal
/// that the server was started with.
pub proof fn stopping_leaves_no_server<S>(h: ServerHandleView<S>)
    ensures
        ({
            let (after, signal) = after_stop(h);
            &&& !after.running && after.addr is None && after.shutdown is None
            &&& after.generation == h.generation
            &&& signal == h.shutdown
        }),
{
}

/// What a start comes to, in so many words: a listener that was bound is served
/// at the address that it reports, whatever was configured; a bind that was
/// refused is reported with the address that was configured and the system's
/// own words; and so is, in those words alone, a listener without an address.
pub proof fn a_start_reports_what_came_of_the_bind(
    configured: SocketAddr,
    bound: SocketAddr,
    why: String,
    generation: u64,
)
    ensures
        start_verdict(configured, BindOutcome::Bound(bound), generation) matches Ok(started)
            && started.0 == bound && started.1 != generation,
        start_verdict(configured, BindOutcome::Unnamed(why), generation) == Err::<
            (SocketAddr, u64),
            Seq<char>,
        >(why@),
        ({
            let told = start_verdict(configured, BindOutcome::Refused(why), generation);
            let head = "could not bind "@ + addr_text(configured) + ": "@;
            &&& told is Err
            &&& head.is_prefix_of(told->Err_0)
            &&& told->Err_0.skip(head.len() as int) == why@
                + " (is another Handy or service already on that port?)"@
        }),
{
    let told = start_verdict(configured, BindOutcome::Refused(why), generation)->Err_0;
    let head = "could not bind "@ + addr_text(configured) + ": "@;
    assert(head =~= told.subrange(0, head.len() as int));
    assert(told.skip(head.len() as int) =~= why@
        + " (is another Handy or service already on that port?)"@);
}

/// After a start that bound an address, the handle is on a server that runs
/// there, with the signal that it was given and a generation of its own: one
/// more than the last, as long as there is one. After a start that failed, it
/// is on no server if none was started since it was vacated, and otherwise as
/// it was.
pub proof fn a_handle_is_on_what_was_started_last<S>(
    h: ServerHandleView<S>,
    vacated: u64,
    bound: SocketAddr,
    why: String,
    shutdown: S,
)
    ensures
        ({
            let on = after_start(h, vacated, BindOutcome::Bound(bound), shutdown);
            &&& on.running && on.addr == Some(bound) && on.shutdown == Some(shutdown)
            &&& on.generation != h.generation
            &&& h.generation < u64::MAX ==> on.generation == h.generation + 1
        }),
        ({
            let refused = after_start(h, vacated, BindOutcome::Refused(why), shutdown);
            let unnamed = after_start(h, vacated, BindOutcome::Unnamed(why), shutdown);
            &&& refused == unnamed
            &&& vacated != h.generation ==> refused == h
            &&& vacated == h.generation ==> !refused.running && refused.addr is None
                && refused.shutdown is None && refused.generation == h.generation
        }),
{
}

/// Stopping is idempotent: a handle that is stopped again stays as it is, and
/// no signal is given twice.
pub proof fn stopping_is_idempotent<S>(h: ServerHandleView<S>)
    ensures
        after_stop(after_stop(h).0) == (after_stop(h).0, None::<S>),
        after_stop(stopped::<S>(h.generation)) == (stopped::<S>(h.generation), None::<S>),
{
}

/// A handle names an address exactly while it says that the server runs, and
/// nothing that happens to it changes that.
pub proof fn running_means_bound<S>(
    h: ServerHandleView<S>,
    vacated: u64,
    generation: u64,
    outcome: BindOutcome,
    shutdown: S,
)
    ensures
        stopped::<S>(generation).is_consistent(),
        after_stop(h).0.is_consistent(),
        h.is_consistent() ==> after_served(h, generation).is_consistent(),
        h.is_consistent() ==> after_start(h, vacated, outcome, shutdown).is_consistent(),
{
}

/// Once a handle was vacated, success names the very address that is bound,
/// and the handle reports a server that runs there; failure leaves no server.
pub proof fn success_means_serving<S>(
    h: ServerHandleView<S>,
    config: SocketAddr,
    outcome: BindOutcome,
    shutdown: S,
)
    ensures
        ({
            let vacant = after_stop(h).0;
            let after = after_start(vacant, h.generation, outcome, shutdown);
            match start_verdict(config, outcome, vacant.generation) {
                Ok((addr, generation)) => after == serving(addr, shutdown, generation),
                Err(_) => after == stopped::<S>(h.generation),
            }
        }),
{
}

/// A handle after another server was started on it, in place of any that ran:
/// vacated, and bound to an address.
pub open spec fn replaced<S>(h: ServerHandleView<S>, addr: SocketAddr, shutdown: S) -> ServerHandleView<
    S,
> {
    after_start(after_stop(h).0, h.generation, BindOutcome::Bound(addr), shutdown)
}

/// A server that was replaced does not come between its successor and the
/// handle: after a start, a stop and a second start, the end of the first
/// server leaves the handle running at the second address, with the signal
/// that shuts the second server down. The end of the second is noted.
pub proof fn a_replaced_server_ends_unnoticed<S>(
    h: ServerHandleView<S>,
    first: SocketAddr,
    first_shutdown: S,
    second: SocketAddr,
    second_shutdown: S,
)
    ensures
        ({
            let one = replaced(h, first, first_shutdown);
            let two = replaced(one, second, second_shutdown);
            let ended = after_served(two, one.generation);
            &&& ended == two
            &&& ended.running && ended.addr == Some(second)
            &&& ended.shutdown == Some(second_shutdown)
            &&& !after_served(two, two.generation).running
            &&& after_served(two, two.generation).addr is None
        }),
{
}

/// A handle after some more servers were started on it in turn.
pub open spec fn replaced_in_turn<S>(
    h: ServerHandleView<S>,
    servers: Seq<(SocketAddr, S)>,
) -> ServerHandleView<S>
    decreases servers.len(),
{
    if servers.len() == 0 {
        h
    } else {
        let (addr, shutdown) = servers.last();
        replaced(replaced_in_turn(h, servers.drop_last()), addr, shutdown)
    }
}

proof fn lemma_generations<S>(h: ServerHandleView<S>, servers: Seq<(SocketAddr, S)>)
    ensures
        replaced_in_turn(h, servers).generation as int == (h.generation + servers.len())
            % 0x1_0000_0000_0000_0000,
    decreases servers.len(),
{
    if servers.len() > 0 {
        lemma_generations(h, servers.drop_last());
    }
}

/// However many servers have replaced it, short of as many as there are
/// generations, the end of a server changes nothing.
pub proof fn an_old_server_ends_unnoticed<S>(
    h: ServerHandleView<S>,
    servers: Seq<(SocketAddr, S)>,
)
    requires
        0 < servers.len() <= u64::MAX,
    ensures
        after_served(replaced_in_turn(h, servers), h.generation) == replaced_in_turn(h, servers),
{
    lemma_generations(h, servers);
}

} // verus!
