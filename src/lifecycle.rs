use vstd::prelude::*;

verus! {

/// Why a lifecycle operation did not go through.
#[derive(Debug)]
pub enum LifecycleError {
    /// A server is already running.
    AlreadyRunning,
    /// No server is running.
    NotRunning,
    /// Setting up the listeners failed with this message.
    Launch(String),
}

pub const ALREADY_RUNNING_TEXT: &'static str = "Server is already running";

pub const NOT_RUNNING_TEXT: &'static str = "Server is not running";

impl LifecycleError {
    /// The message shown to the host application.
    pub fn message(&self) -> (r: String)
        ensures
            r@ == match self {
                LifecycleError::AlreadyRunning => ALREADY_RUNNING_TEXT@,
                LifecycleError::NotRunning => NOT_RUNNING_TEXT@,
                LifecycleError::Launch(m) => m@,
            },
    {
        match self {
            LifecycleError::AlreadyRunning => String::from_str(ALREADY_RUNNING_TEXT),
            LifecycleError::NotRunning => String::from_str(NOT_RUNNING_TEXT),
            LifecycleError::Launch(m) => m.clone(),
        }
    }
}

/// A running server: the address its network listener is bound to, and the
/// handle that asks its listeners to shut down.
pub struct ServerState<H> {
    pub address: String,
    pub shutdown: H,
}

/// The single server of the process: stopped, or running with its state.
pub struct ServerControl<H> {
    state: Option<ServerState<H>>,
}

impl<H> View for ServerControl<H> {
    /// The bound address while running; `None` while stopped.
    type V = Option<Seq<char>>;

    closed spec fn view(&self) -> Option<Seq<char>> {
        match self.state {
            Some(s) => Some(s.address@),
            None => None,
        }
    }
}

impl<H> ServerControl<H> {
    /// The shutdown handle of the running server.
    pub closed spec fn handle(&self) -> Option<H> {
        match self.state {
            Some(s) => Some(s.shutdown),
            None => None,
        }
    }

    /// A stopped server.
    pub fn new() -> (r: Self)
        ensures
            r@ is None,
            r.handle() is None,
    {
        ServerControl { state: None }
    }

    /// Whether the server is running.
    pub fn is_running(&self) -> (r: bool)
        ensures
            r == self@ is Some,
    {
        self.state.is_some()
    }
}

/// The state after a start from a stopped server whose set-up gave `out`.
pub open spec fn launched<H>(out: Result<(String, H), String>) -> Option<Seq<char>> {
    match out {
        Ok((a, _)) => Some(a@),
        Err(_) => None,
    }
}

/// The URL at which a server in state `v` is reached; `None` when stopped.
pub open spec fn url_of(v: Option<Seq<char>>) -> Option<Seq<char>> {
    match v {
        Some(a) => Some("http://"@ + a),
        None => None,
    }
}

/// Starts the server. A running server is left as it is and the start fails
/// with `AlreadyRunning`, without `launch` being called. Otherwise `launch`
/// binds the listeners and gives the bound address and the shutdown handle,
/// which are recorded; if it fails, the server stays stopped.
pub fn start_server<H, F: FnOnce() -> Result<(String, H), String>>(
    ctl: &mut ServerControl<H>,
    launch: F,
) -> (r: Result<(), LifecycleError>)
    requires
        launch.requires(()),
    ensures
        old(ctl)@ is Some ==> (r matches Err(LifecycleError::AlreadyRunning) && *final(ctl)
            == *old(ctl)),
        old(ctl)@ is None ==> exists|out: Result<(String, H), String>|
            #[trigger] launch.ensures((), out) && final(ctl)@ == launched(out) && match out {
                Ok((_, h)) => r is Ok && final(ctl).handle() == Some(h),
                Err(m) => r matches Err(LifecycleError::Launch(e)) && e@ == m@,
            },
{
    if ctl.state.is_some() {
        return Err(LifecycleError::AlreadyRunning);
    }
    let out = launch();
    match out {
        Ok((address, shutdown)) => {
            ctl.state = Some(ServerState { address, shutdown });
            Ok(())
        },
        Err(m) => Err(LifecycleError::Launch(m)),
    }
}

/// Stops the server and hands back its shutdown handle for the caller to
/// signal. A stopped server is left as it is and the stop fails with
/// `NotRunning`.
pub fn stop_server<H>(ctl: &mut ServerControl<H>) -> (r: Result<H, LifecycleError>)
    ensures
        old(ctl)@ is None ==> (r matches Err(LifecycleError::NotRunning) && *final(ctl)
            == *old(ctl)),
        old(ctl)@ is Some ==> (r matches Ok(h) && old(ctl).handle() == Some(h)),
        final(ctl)@ is None,
        final(ctl).handle() is None,
{
    match ctl.state.take() {
        Some(s) => Ok(s.shutdown),
        None => Err(LifecycleError::NotRunning),
    }
}

/// The URL of the running server, `http://` followed by the address
/// recorded at start; `NotRunning` while stopped.
pub fn get_url<H>(ctl: &ServerControl<H>) -> (r: Result<String, LifecycleError>)
    ensures
        ctl@ is None ==> r matches Err(LifecycleError::NotRunning),
        ctl@ is Some ==> (r matches Ok(u) && Some(u@) == url_of(ctl@)),
{
    match &ctl.state {
        Some(s) => {
            let mut u = String::from_str("http://");
            u.append(s.address.as_str());
            Ok(u)
        },
        None => Err(LifecycleError::NotRunning),
    }
}

/// After a start whose set-up bound `address`, the URL is `http://` followed
/// by that address; after a stop, there is no URL.
pub proof fn lemma_url_follows_lifecycle<H>(address: String, handle: H)
    ensures
        url_of(launched(Ok::<(String, H), String>((address, handle)))) == Some(
            "http://"@ + address@,
        ),
        url_of(None) is None,
{
}

} // verus!
