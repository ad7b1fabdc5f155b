//! The provider's own state: the device it works with, its session, a pairing
//! under way and the log; and the operations that change it.
use crate::domain::{
    AdvancedCapabilities, ConnectionLog, ConnectionLogView, DeviceSummary, DeviceSummaryView,
    TransportKind, DEFAULT_DEVICE_HOST,
};
use crate::errors::{internal, ErrorView, RustProviderError};
use crate::numbers::{decimal, number_text};
use crate::pairing::{is_pin, valid_pin, PendingPairing, PendingView};
use crate::session::{Session, SessionView};
use crate::text::{cat2, cat3, cat4, same};
use vstd::prelude::*;
use vstd::string::*;

verus! {

/// How many lines the log keeps.
pub const LOG_LIMIT: usize = 200;

/// A client of one device at a time.
pub struct RustNativeProvider {
    pub selected_addr: Option<String>,
    pub session: Option<Session>,
    pub pending_pairing: Option<PendingPairing>,
    pub logs: Vec<ConnectionLog>,
}

/// The contents of log lines.
pub open spec fn lines(logs: Seq<ConnectionLog>) -> Seq<ConnectionLogView> {
    logs.map_values(|l: ConnectionLog| l.deep_view())
}

/// A log with one more line, cut to the newest lines that it keeps. Lines are
/// numbered by their place when they were written.
pub open spec fn logged(
    logs: Seq<ConnectionLogView>,
    timestamp: Seq<char>,
    message: Seq<char>,
) -> Seq<ConnectionLogView> {
    let all = logs.push(ConnectionLogView { id: decimal(logs.len() + 1), timestamp, message });
    if all.len() > LOG_LIMIT {
        all.skip(all.len() - LOG_LIMIT)
    } else {
        all
    }
}

/// The newest line is kept, older lines stay in order, and there are never more
/// lines than the limit.
pub proof fn log_keeps_the_newest(
    logs: Seq<ConnectionLogView>,
    timestamp: Seq<char>,
    message: Seq<char>,
)
    ensures
        logged(logs, timestamp, message).len() <= LOG_LIMIT,
        logged(logs, timestamp, message).len() == if logs.len() < LOG_LIMIT {
            logs.len() + 1
        } else {
            LOG_LIMIT as nat
        },
        logged(logs, timestamp, message).last().message == message,
        logged(logs, timestamp, message).last().timestamp == timestamp,
        logged(logs, timestamp, message).drop_last() == logs.skip(
            if logs.len() < LOG_LIMIT {
                0
            } else {
                logs.len() - LOG_LIMIT + 1
            },
        ),
{
    let from: int = if logs.len() < LOG_LIMIT {
        0
    } else {
        logs.len() - LOG_LIMIT + 1
    };
    assert(logged(logs, timestamp, message).drop_last() =~= logs.skip(from));
}

/// What an operation needs a session for.
pub enum SessionNeed {
    /// The session at hand.
    Have(Session),
    /// A login at the address with the client's name and private key.
    Login(String, String, String),
    Failed(RustProviderError),
}

/// The content of a [`SessionNeed`].
pub enum SessionNeedView {
    Have(SessionView),
    Login(Seq<char>, Seq<char>, Seq<char>),
    Failed(ErrorView),
}

impl DeepView for SessionNeed {
    type V = SessionNeedView;

    open spec fn deep_view(&self) -> SessionNeedView {
        match self {
            SessionNeed::Have(session) => SessionNeedView::Have(session.deep_view()),
            SessionNeed::Login(addr, client_id, key) => SessionNeedView::Login(
                addr@,
                client_id@,
                key@,
            ),
            SessionNeed::Failed(e) => SessionNeedView::Failed(e.deep_view()),
        }
    }
}

/// The credentials on disk: the client's name and its private key, where they are there.
pub struct StoredCredentials {
    pub client_id: Option<String>,
    pub private_key: Option<String>,
}

/// What a login at an address needs.
pub open spec fn login_need(addr: Seq<char>, stored: StoredCredentials) -> SessionNeedView {
    match (stored.client_id, stored.private_key) {
        (Some(client_id), Some(key)) => SessionNeedView::Login(addr, client_id@, key@),
        _ => SessionNeedView::Failed(ErrorView::PairingRequired),
    }
}

/// What a login at an address needs: both credentials, else a pairing.
pub fn refresh_session_for_addr(addr: &str, stored: &StoredCredentials) -> (r: SessionNeed)
    ensures
        r.deep_view() == login_need(addr@, *stored),
{
    match (&stored.client_id, &stored.private_key) {
        (Some(client_id), Some(key)) => SessionNeed::Login(
            addr.to_owned(),
            client_id.as_str().to_owned(),
            key.as_str().to_owned(),
        ),
        _ => SessionNeed::Failed(RustProviderError::PairingRequired),
    }
}

impl RustNativeProvider {
    /// Whether the log is within its limit.
    pub open spec fn wf(&self) -> bool {
        self.logs@.len() <= LOG_LIMIT
    }

    /// A provider that has done nothing yet.
    pub fn new() -> (r: Self)
        ensures
            r.wf(),
            r.selected_addr is None,
            r.session is None,
            r.pending_pairing is None,
            lines(r.logs@) == Seq::<ConnectionLogView>::empty(),
    {
        let logs: Vec<ConnectionLog> = Vec::new();
        assert(lines(logs@) =~= Seq::<ConnectionLogView>::empty());
        RustNativeProvider { selected_addr: None, session: None, pending_pairing: None, logs }
    }

    /// Writes a line to the log.
    pub fn log(&mut self, timestamp: &str, message: &str)
        requires
            old(self).wf(),
        ensures
            final(self).wf(),
            lines(final(self).logs@) == logged(lines(old(self).logs@), timestamp@, message@),
            final(self).selected_addr == old(self).selected_addr,
            final(self).session == old(self).session,
            final(self).pending_pairing == old(self).pending_pairing,
    {
        let ghost was = lines(self.logs@);
        let count: usize = self.logs.len();
        let id = number_text((count + 1) as u64);
        let line = ConnectionLog {
            id,
            timestamp: timestamp.to_owned(),
            message: message.to_owned(),
        };
        let ghost text = line.deep_view();
        self.logs.push(line);
        assert(lines(self.logs@) =~= was.push(text));
        let ghost all = lines(self.logs@);
        if self.logs.len() > LOG_LIMIT {
            let keep_from: usize = self.logs.len() - LOG_LIMIT;
            let kept = self.logs.split_off(keep_from);
            self.logs = kept;
            assert(lines(self.logs@) =~= all.skip(keep_from as int));
        }
    }

    /// The log, oldest line first.
    pub fn read_logs(&self) -> (r: Vec<ConnectionLog>)
        ensures
            lines(r@) == lines(self.logs@),
    {
        let mut out: Vec<ConnectionLog> = Vec::new();
        for i in 0..self.logs.len()
            invariant
                out@.len() == i,
                forall|k: int|
                    0 <= k < i ==> (#[trigger] out@[k]).deep_view() == self.logs@[k].deep_view(),
        {
            let line = self.logs[i].clone();
            assert(line.deep_view() == self.logs@[i as int].deep_view());
            out.push(line);
        }
        assert(lines(out@) =~= lines(self.logs@));
        out
    }
}

impl Default for RustNativeProvider {
    fn default() -> (r: Self)
        ensures
            r.wf(),
            r.selected_addr is None,
            r.session is None,
            r.pending_pairing is None,
            lines(r.logs@) == Seq::<ConnectionLogView>::empty(),
    {
        RustNativeProvider::new()
    }
}

/// What connecting to a device has seen so far.
pub struct ConnectHistory {
    /// What discovery gave, where no address was given.
    pub discovered: Option<Result<Vec<DeviceSummary>, RustProviderError>>,
    /// Whether the address answered.
    pub probed: Option<bool>,
    /// The session of a login, where there were credentials and it went well.
    pub login: Option<Option<Session>>,
}

/// How connecting to a device goes on.
pub enum ConnectStep {
    Discover,
    Probe(String),
    /// Log in at the address where there are credentials.
    Login(String),
    Done(DeviceSummary),
    Failed(RustProviderError),
}

/// The content of a [`ConnectStep`].
pub enum ConnectStepView {
    Discover,
    Probe(Seq<char>),
    Login(Seq<char>),
    Done(DeviceSummaryView),
    Failed(ErrorView),
}

impl DeepView for ConnectStep {
    type V = ConnectStepView;

    open spec fn deep_view(&self) -> ConnectStepView {
        match self {
            ConnectStep::Discover => ConnectStepView::Discover,
            ConnectStep::Probe(addr) => ConnectStepView::Probe(addr@),
            ConnectStep::Login(addr) => ConnectStepView::Login(addr@),
            ConnectStep::Done(device) => ConnectStepView::Done(device.deep_view()),
            ConnectStep::Failed(e) => ConnectStepView::Failed(e.deep_view()),
        }
    }
}

/// A device at an address, under the name it has before it tells its own.
pub open spec fn device_at(addr: Seq<char>, kind: TransportKind, paired: bool) -> DeviceSummaryView {
    DeviceSummaryView {
        id: "rust-"@ + addr,
        serial: None,
        name: if addr == DEFAULT_DEVICE_HOST@ {
            "Sony Digital Paper"@
        } else {
            "Sony Digital Paper ("@ + addr + ")"@
        },
        reachable_addrs: seq![addr],
        transport_kinds: seq![kind],
        paired,
    }
}

/// A device at an address.
pub fn summary_at(addr: &str, kind: TransportKind, paired: bool) -> (r: DeviceSummary)
    ensures
        r.deep_view() == device_at(addr@, kind, paired),
{
    let name = if same(addr, DEFAULT_DEVICE_HOST) {
        "Sony Digital Paper".to_owned()
    } else {
        cat3("Sony Digital Paper (", addr, ")")
    };
    let r = DeviceSummary {
        id: cat2("rust-", addr),
        serial: None,
        name,
        reachable_addrs: vec![addr.to_owned()],
        transport_kinds: vec![kind],
        paired,
    };
    assert(r.deep_view() =~= device_at(addr@, kind, paired));
    r
}

/// The first address of the first device.
pub open spec fn first_address(devices: Seq<DeviceSummary>) -> Option<Seq<char>> {
    if devices.len() > 0 && devices[0].reachable_addrs@.len() > 0 {
        Some(devices[0].reachable_addrs@[0]@)
    } else {
        None
    }
}

/// The address that is connected to: the given one, else the first that
/// discovery gave; nothing where discovery has yet to be made.
pub open spec fn connect_target(
    addr: Option<Seq<char>>,
    discovered: Option<Result<Vec<DeviceSummary>, RustProviderError>>,
) -> Option<Result<Seq<char>, ErrorView>> {
    match addr {
        Some(addr) => Some(Ok(addr)),
        None => match discovered {
            None => None,
            Some(Err(e)) => Some(Err(e.deep_view())),
            Some(Ok(devices)) => match first_address(devices@) {
                Some(addr) => Some(Ok(addr)),
                None => Some(Err(ErrorView::DeviceNotFound)),
            },
        },
    }
}

/// Connecting to a device, as a function of what has been seen so far: the
/// address is settled and must answer, unless it is the announced name; then a
/// login is tried, and the device counts as paired where it goes well.
pub open spec fn connect_step(
    addr: Option<Seq<char>>,
    hint: Option<TransportKind>,
    h: ConnectHistory,
) -> ConnectStepView {
    match connect_target(addr, h.discovered) {
        None => ConnectStepView::Discover,
        Some(Err(e)) => ConnectStepView::Failed(e),
        Some(Ok(target)) => match h.probed {
            None => ConnectStepView::Probe(target),
            Some(answered) => if !answered && target != DEFAULT_DEVICE_HOST@ {
                ConnectStepView::Failed(ErrorView::TransportUnreachable)
            } else {
                match h.login {
                    None => ConnectStepView::Login(target),
                    Some(session) => ConnectStepView::Done(
                        device_at(
                            target,
                            match hint {
                                Some(kind) => kind,
                                None => TransportKind::Wifi,
                            },
                            session is Some,
                        ),
                    ),
                }
            },
        },
    }
}

fn settle_target(
    addr: &Option<String>,
    discovered: &Option<Result<Vec<DeviceSummary>, RustProviderError>>,
) -> (r: Option<Result<String, RustProviderError>>)
    ensures
        connect_target(addr.deep_view(), *discovered) == match r {
            None => None,
            Some(Ok(target)) => Some(Ok(target@)),
            Some(Err(e)) => Some(Err(e.deep_view())),
        },
{
    match addr {
        Some(addr) => Some(Ok(addr.as_str().to_owned())),
        None => match discovered {
            None => None,
            Some(Err(e)) => Some(Err(e.clone())),
            Some(Ok(devices)) => if devices.len() > 0 && devices[0].reachable_addrs.len() > 0 {
                Some(Ok(devices[0].reachable_addrs[0].as_str().to_owned()))
            } else {
                Some(Err(RustProviderError::DeviceNotFound))
            },
        },
    }
}

/// What pairing with a PIN has seen so far.
pub struct PairHistory {
    /// The pairing on disk, if one is there, or why it could not be read.
    pub saved: Option<Result<Option<PendingPairing>, RustProviderError>>,
    /// The pairing that was begun anew.
    pub begun: Option<Result<PendingPairing, RustProviderError>>,
    /// The client's name and private key that the pairing gave.
    pub finished: Option<Result<(String, String), RustProviderError>>,
    /// Whether the credentials were stored.
    pub stored: Option<Result<(), RustProviderError>>,
    pub login: Option<Result<Session, RustProviderError>>,
}

/// How pairing with a PIN goes on.
pub enum PairingStep {
    ReadSaved,
    Begin,
    Finish(PendingPairing),
    Store(String, String),
    Login(String, String, String),
    Done(DeviceSummary, Session),
    Failed(RustProviderError),
}

/// The content of a [`PairingStep`].
pub enum PairingStepView {
    ReadSaved,
    Begin,
    Finish(PendingView),
    Store(Seq<char>, Seq<char>),
    Login(Seq<char>, Seq<char>, Seq<char>),
    Done(DeviceSummaryView, SessionView),
    Failed(ErrorView),
}

impl DeepView for PairingStep {
    type V = PairingStepView;

    open spec fn deep_view(&self) -> PairingStepView {
        match self {
            PairingStep::ReadSaved => PairingStepView::ReadSaved,
            PairingStep::Begin => PairingStepView::Begin,
            PairingStep::Finish(pending) => PairingStepView::Finish(pending.deep_view()),
            PairingStep::Store(client_id, key) => PairingStepView::Store(client_id@, key@),
            PairingStep::Login(addr, client_id, key) => PairingStepView::Login(
                addr@,
                client_id@,
                key@,
            ),
            PairingStep::Done(device, session) => PairingStepView::Done(
                device.deep_view(),
                session.deep_view(),
            ),
            PairingStep::Failed(e) => PairingStepView::Failed(e.deep_view()),
        }
    }
}

/// The pairing that a PIN is for: the one at hand, else the one on disk, else
/// one begun anew; where it is not settled yet, the step that settles it.
pub open spec fn pairing_at_hand(current: Option<PendingPairing>, h: PairHistory) -> Result<
    PendingView,
    PairingStepView,
> {
    match current {
        Some(pending) => Ok(pending.deep_view()),
        None => match h.saved {
            None => Err(PairingStepView::ReadSaved),
            Some(Err(e)) => Err(PairingStepView::Failed(e.deep_view())),
            Some(Ok(Some(pending))) => Ok(pending.deep_view()),
            Some(Ok(None)) => match h.begun {
                None => Err(PairingStepView::Begin),
                Some(Err(e)) => Err(PairingStepView::Failed(e.deep_view())),
                Some(Ok(pending)) => Ok(pending.deep_view()),
            },
        },
    }
}

/// Pairing with a PIN, as a function of what has been seen so far: the PIN must
/// be eight digits; the pairing is settled and finished, its credentials are
/// stored, and a login with them must go well.
pub open spec fn pair_step(
    current: Option<PendingPairing>,
    pin: Seq<char>,
    h: PairHistory,
) -> PairingStepView {
    if !is_pin(pin) {
        PairingStepView::Failed(ErrorView::PinInvalid)
    } else {
        match pairing_at_hand(current, h) {
            Err(step) => step,
            Ok(pending) => match h.finished {
                None => PairingStepView::Finish(pending),
                Some(Err(e)) => PairingStepView::Failed(e.deep_view()),
                Some(Ok(made)) => match h.stored {
                    None => PairingStepView::Store(made.0@, made.1@),
                    Some(Err(e)) => PairingStepView::Failed(e.deep_view()),
                    Some(Ok(_)) => match h.login {
                        None => PairingStepView::Login(pending.addr, made.0@, made.1@),
                        Some(Err(e)) => PairingStepView::Failed(e.deep_view()),
                        Some(Ok(session)) => PairingStepView::Done(
                            device_at(pending.addr, TransportKind::Wifi, true),
                            session.deep_view(),
                        ),
                    },
                },
            },
        }
    }
}

fn settle_pairing(current: &Option<PendingPairing>, h: &PairHistory) -> (r: Result<
    PendingPairing,
    PairingStep,
>)
    ensures
        pairing_at_hand(*current, *h) == match r {
            Ok(pending) => Ok(pending.deep_view()),
            Err(step) => Err(step.deep_view()),
        },
{
    match current {
        Some(pending) => Ok(pending.clone()),
        None => match &h.saved {
            None => Err(PairingStep::ReadSaved),
            Some(Err(e)) => Err(PairingStep::Failed(e.clone())),
            Some(Ok(Some(pending))) => Ok(pending.clone()),
            Some(Ok(None)) => match &h.begun {
                None => Err(PairingStep::Begin),
                Some(Err(e)) => Err(PairingStep::Failed(e.clone())),
                Some(Ok(pending)) => Ok(pending.clone()),
            },
        },
    }
}

/// Where the credential files to import are looked for.
pub enum CredentialSource {
    /// These two files: the client's name and its private key.
    Files(String, String),
    /// Below this folder.
    Folder(String),
}

/// Where the credential files to import are looked for: two given files, else a
/// given folder.
pub open spec fn credential_source_of(
    folder: Option<Seq<char>>,
    device: Option<Seq<char>>,
    key: Option<Seq<char>>,
    source: Result<CredentialSource, RustProviderError>,
) -> bool {
    match source {
        Ok(CredentialSource::Files(d, k)) => device == Some(d@) && key == Some(k@),
        Ok(CredentialSource::Folder(f)) => (device is None || key is None) && folder == Some(f@),
        Err(e) => (device is None || key is None) && folder is None && e.deep_view()
            == ErrorView::Internal("provide sony_app_folder or both credential file paths"@),
    }
}

impl RustNativeProvider {
    /// Decides where the credential files to import are looked for.
    pub fn import_credentials(
        sony_app_folder: Option<String>,
        device_id_path: Option<String>,
        private_key_path: Option<String>,
    ) -> (r: Result<CredentialSource, RustProviderError>)
        ensures
            credential_source_of(
                sony_app_folder.deep_view(),
                device_id_path.deep_view(),
                private_key_path.deep_view(),
                r,
            ),
    {
        match (device_id_path, private_key_path) {
            (Some(device), Some(key)) => Ok(CredentialSource::Files(device, key)),
            _ => match sony_app_folder {
                Some(folder) => Ok(CredentialSource::Folder(folder)),
                None => Err(internal("provide sony_app_folder or both credential file paths")),
            },
        }
    }
}

/// A file met on a walk: its name and its path.
pub struct WalkedFile {
    pub name: String,
    pub path: String,
}

/// The last file with the given name among some files.
pub open spec fn last_named(files: Seq<WalkedFile>, name: Seq<char>) -> Option<Seq<char>>
    decreases files.len(),
{
    if files.len() == 0 {
        None
    } else if files.last().name@ == name {
        Some(files.last().path@)
    } else {
        last_named(files.drop_last(), name)
    }
}

/// Whether both credential files are among some files.
pub open spec fn has_both(files: Seq<WalkedFile>) -> bool {
    last_named(files, "deviceid.dat"@) is Some && last_named(files, "privatekey.dat"@) is Some
}

/// The part of a walk that is looked at: up to the file with which both
/// credential files have been met, or all of it.
pub open spec fn looked_at(files: Seq<WalkedFile>, n: int) -> bool {
    &&& 0 <= n <= files.len()
    &&& n < files.len() ==> has_both(files.take(n))
    &&& forall|k: int| 0 <= k < n ==> !has_both(#[trigger] files.take(k))
}

/// The credential files on a walk: the last of each name in the part of the walk
/// that ends where both have been met.
pub fn find_credentials_in_folder(files: &Vec<WalkedFile>) -> (r: Result<
    (String, String),
    RustProviderError,
>)
    ensures
        match r {
            Ok(found) => exists|n: int| #[trigger]
                looked_at(files@, n) && last_named(files@.take(n), "deviceid.dat"@) == Some(
                    found.0@,
                ) && last_named(files@.take(n), "privatekey.dat"@) == Some(found.1@),
            Err(e) => !has_both(files@) && e.deep_view() == ErrorView::Internal(
                "credentials not found in provided folder"@,
            ),
        },
{
    let mut device: Option<String> = None;
    let mut key: Option<String> = None;
    let mut at: usize = 0;
    proof {
        names_differ();
        assert(files@.take(0) =~= Seq::<WalkedFile>::empty());
    }
    while at < files.len() && !(device.is_some() && key.is_some())
        invariant
            at <= files@.len(),
            "deviceid.dat"@ != "privatekey.dat"@,
            device.deep_view() == last_named(files@.take(at as int), "deviceid.dat"@),
            key.deep_view() == last_named(files@.take(at as int), "privatekey.dat"@),
            forall|k: int| 0 <= k < at ==> !has_both(#[trigger] files@.take(k)),
        decreases files@.len() - at,
    {
        let file = &files[at];
        proof {
            assert(files@.take(at + 1).drop_last() =~= files@.take(at as int));
            assert(files@.take(at + 1).last() == files@[at as int]);
        }
        if same(file.name.as_str(), "deviceid.dat") {
            device = Some(file.path.as_str().to_owned());
        } else if same(file.name.as_str(), "privatekey.dat") {
            key = Some(file.path.as_str().to_owned());
        }
        at = at + 1;
    }
    proof {
        assert(looked_at(files@, at as int));
        assert(files@.take(files@.len() as int) =~= files@);
    }
    match (device, key) {
        (Some(d), Some(k)) => Ok((d, k)),
        _ => Err(internal("credentials not found in provided folder")),
    }
}

proof fn names_differ()
    ensures
        "deviceid.dat"@ != "privatekey.dat"@,
{
    reveal_strlit("deviceid.dat");
    reveal_strlit("privatekey.dat");
    assert("deviceid.dat"@.len() == 12 && "privatekey.dat"@.len() == 14);
}

impl RustNativeProvider {
    /// The next step of connecting to a device.
    pub fn connect(
        addr: &Option<String>,
        transport_hint: Option<TransportKind>,
        h: &ConnectHistory,
    ) -> (r: ConnectStep)
        ensures
            r.deep_view() == connect_step(addr.deep_view(), transport_hint, *h),
    {
        let target = match settle_target(addr, &h.discovered) {
            None => {
                return ConnectStep::Discover;
            },
            Some(Err(e)) => {
                return ConnectStep::Failed(e);
            },
            Some(Ok(target)) => target,
        };
        let answered = match h.probed {
            None => {
                return ConnectStep::Probe(target);
            },
            Some(answered) => answered,
        };
        if !answered && !same(target.as_str(), DEFAULT_DEVICE_HOST) {
            return ConnectStep::Failed(RustProviderError::TransportUnreachable);
        }
        match &h.login {
            None => ConnectStep::Login(target),
            Some(session) => {
                let kind = match transport_hint {
                    Some(kind) => kind,
                    None => TransportKind::Wifi,
                };
                ConnectStep::Done(summary_at(target.as_str(), kind, session.is_some()))
            },
        }
    }

    /// Takes over a connection: the device is selected, its session is the one
    /// given, and no pairing is under way.
    pub fn connected(&mut self, target: &str, session: Option<Session>)
        ensures
            final(self).selected_addr.deep_view() == Some(target@),
            final(self).session == session,
            final(self).pending_pairing is None,
            final(self).logs == old(self).logs,
    {
        self.selected_addr = Some(target.to_owned());
        self.session = session;
        self.pending_pairing = None;
    }

    /// The log line for a connection.
    pub fn connected_message(target: &str, paired: bool) -> (r: String)
        ensures
            r@ == "Connected to "@ + target@ + " (paired="@ + (if paired {
                "true"@
            } else {
                "false"@
            }) + ")"@,
    {
        let flag = if paired {
            "true"
        } else {
            "false"
        };
        crate::text::cat5("Connected to ", target, " (paired=", flag, ")")
    }

    /// The next step of pairing with a PIN.
    pub fn pair(&self, pin: &str, h: &PairHistory) -> (r: PairingStep)
        ensures
            r.deep_view() == pair_step(self.pending_pairing, pin@, *h),
    {
        if !valid_pin(pin) {
            return PairingStep::Failed(RustProviderError::PinInvalid);
        }
        let pending = match settle_pairing(&self.pending_pairing, h) {
            Err(step) => {
                return step;
            },
            Ok(pending) => pending,
        };
        let (client_id, key) = match &h.finished {
            None => {
                return PairingStep::Finish(pending);
            },
            Some(Err(e)) => {
                return PairingStep::Failed(e.clone());
            },
            Some(Ok(made)) => (made.0.as_str().to_owned(), made.1.as_str().to_owned()),
        };
        match &h.stored {
            None => {
                return PairingStep::Store(client_id, key);
            },
            Some(Err(e)) => {
                return PairingStep::Failed(e.clone());
            },
            Some(Ok(_)) => {},
        }
        match &h.login {
            None => PairingStep::Login(pending.addr, client_id, key),
            Some(Err(e)) => PairingStep::Failed(e.clone()),
            Some(Ok(session)) => PairingStep::Done(
                summary_at(pending.addr.as_str(), TransportKind::Wifi, true),
                session.clone(),
            ),
        }
    }

    /// Takes over a finished pairing: its session is in use and no pairing is under way.
    pub fn paired(&mut self, session: Session)
        ensures
            final(self).session == Some(session),
            final(self).pending_pairing is None,
            final(self).selected_addr == old(self).selected_addr,
            final(self).logs == old(self).logs,
    {
        self.session = Some(session);
        self.pending_pairing = None;
    }

    /// The address at which a pairing is begun: the selected device's.
    pub fn begin_pair(&self) -> (r: Result<String, RustProviderError>)
        ensures
            match r {
                Ok(addr) => self.selected_addr.deep_view() == Some(addr@),
                Err(e) => self.selected_addr is None && e is PairingRequired,
            },
    {
        match &self.selected_addr {
            Some(addr) => Ok(addr.as_str().to_owned()),
            None => Err(RustProviderError::PairingRequired),
        }
    }

    /// Takes over a pairing that waits for its PIN; gives the log line for it.
    pub fn begin_pair_for_address(&mut self, addr: &str, pending: PendingPairing) -> (r: String)
        ensures
            final(self).pending_pairing == Some(pending),
            final(self).selected_addr == old(self).selected_addr,
            final(self).session == old(self).session,
            final(self).logs == old(self).logs,
            r@ == "PIN requested for "@ + addr@,
    {
        self.pending_pairing = Some(pending);
        cat2("PIN requested for ", addr)
    }

    /// What an operation needs: the session at hand, else a login at the selected
    /// device.
    pub fn require_session(&self, stored: &StoredCredentials) -> (r: SessionNeed)
        ensures
            r.deep_view() == match self.session {
                Some(session) => SessionNeedView::Have(session.deep_view()),
                None => match self.selected_addr {
                    None => SessionNeedView::Failed(ErrorView::PairingRequired),
                    Some(addr) => login_need(addr@, *stored),
                },
            },
    {
        match &self.session {
            Some(session) => SessionNeed::Have(session.clone()),
            None => match &self.selected_addr {
                None => SessionNeed::Failed(RustProviderError::PairingRequired),
                Some(addr) => refresh_session_for_addr(addr.as_str(), stored),
            },
        }
    }

    /// Takes over a session that was opened because another one was refused.
    pub fn refreshed(&mut self, addr: &str, session: Session)
        ensures
            final(self).selected_addr.deep_view() == Some(addr@),
            final(self).session == Some(session),
            final(self).pending_pairing == old(self).pending_pairing,
            final(self).logs == old(self).logs,
    {
        self.selected_addr = Some(addr.to_owned());
        self.session = Some(session);
    }

    /// The address that an operation without a session works with: the given
    /// one, else the selected one, else the announced name.
    pub fn resolve_target_addr(&self, addr: Option<String>) -> (r: String)
        ensures
            r@ == match addr {
                Some(addr) => addr@,
                None => match self.selected_addr {
                    Some(addr) => addr@,
                    None => DEFAULT_DEVICE_HOST@,
                },
            },
    {
        match addr {
            Some(addr) => addr,
            None => match &self.selected_addr {
                Some(addr) => addr.as_str().to_owned(),
                None => DEFAULT_DEVICE_HOST.to_owned(),
            },
        }
    }

    /// What a device can do beyond documents: applications cannot be installed.
    pub fn detect_advanced_capabilities() -> (r: AdvancedCapabilities)
        ensures
            !r.apk_install_supported,
            r.apk_install_message.deep_view() == Some(
                "Digital Paper devices do not expose APK install in the known HTTP API"@,
            ),
    {
        AdvancedCapabilities {
            apk_install_supported: false,
            apk_install_message: Some(
                "Digital Paper devices do not expose APK install in the known HTTP API".to_owned(),
            ),
        }
    }
}

/// A device counts as paired after connecting exactly when a login went well,
/// and it is reached at the address that was settled.
pub proof fn connected_means_logged_in(
    addr: Option<Seq<char>>,
    hint: Option<TransportKind>,
    h: ConnectHistory,
)
    requires
        connect_step(addr, hint, h) is Done,
    ensures
        ({
            let device = connect_step(addr, hint, h)->Done_0;
            &&& device.paired <==> h.login == Some(h.login->Some_0) && h.login->Some_0 is Some
            &&& device.reachable_addrs.len() == 1
            &&& connect_target(addr, h.discovered) == Some(
                Ok::<Seq<char>, ErrorView>(device.reachable_addrs[0]),
            )
            &&& h.probed == Some(true) || device.reachable_addrs[0] == DEFAULT_DEVICE_HOST@
        }),
{
}

/// Pairing ends well only with a PIN of eight digits, stored credentials, and a
/// login with them.
pub proof fn paired_means_logged_in(current: Option<PendingPairing>, pin: Seq<char>, h: PairHistory)
    requires
        pair_step(current, pin, h) is Done,
    ensures
        is_pin(pin),
        h.finished matches Some(Ok(_)),
        h.stored matches Some(Ok(_)),
        h.login matches Some(Ok(_)),
        pair_step(current, pin, h)->Done_0.paired,
{
}

/// An operation that has been finished.
pub enum Finished {
    Uploaded { local: String, target: String },
    Downloaded { remote: String, local: String },
    Deleted { path: String },
    Moved { src: String, dst: String },
    FolderCreated { path: String },
    Copied { src: String, dst: String },
    WifiAdded,
    WifiRemoved,
    DatetimeSet,
    TemplateUploaded { local: String, remote: String },
    TemplateDeleted { name: String },
    FirmwareUploaded { local: String },
    Synchronised,
    Paired { addr: String },
}

impl Finished {
    /// The line for the log.
    pub open spec fn line(&self) -> Seq<char> {
        match self {
            Finished::Uploaded { local, target } => "Uploaded "@ + local@ + " -> "@ + target@,
            Finished::Downloaded { remote, local } => "Downloaded "@ + remote@ + " -> "@ + local@,
            Finished::Deleted { path } => "Deleted "@ + path@,
            Finished::Moved { src, dst } => "Moved "@ + src@ + " -> "@ + dst@,
            Finished::FolderCreated { path } => "Created folder "@ + path@,
            Finished::Copied { src, dst } => "Copied "@ + src@ + " -> "@ + dst@,
            Finished::WifiAdded => "Wi-Fi network added"@,
            Finished::WifiRemoved => "Wi-Fi network removed"@,
            Finished::DatetimeSet => "Device datetime updated"@,
            Finished::TemplateUploaded { local, remote } => "Uploaded template "@ + local@ + " -> "@
                + remote@,
            Finished::TemplateDeleted { name } => "Deleted template "@ + name@,
            Finished::FirmwareUploaded { local } => "Firmware update uploaded from "@ + local@,
            Finished::Synchronised => "Sync completed"@,
            Finished::Paired { addr } => "Pair succeeded for "@ + addr@,
        }
    }

    /// The line for the log.
    pub fn message(&self) -> (r: String)
        ensures
            r@ == self.line(),
    {
        match self {
            Finished::Uploaded { local, target } => cat4(
                "Uploaded ",
                local.as_str(),
                " -> ",
                target.as_str(),
            ),
            Finished::Downloaded { remote, local } => cat4(
                "Downloaded ",
                remote.as_str(),
                " -> ",
                local.as_str(),
            ),
            Finished::Deleted { path } => cat2("Deleted ", path.as_str()),
            Finished::Moved { src, dst } => cat4("Moved ", src.as_str(), " -> ", dst.as_str()),
            Finished::FolderCreated { path } => cat2("Created folder ", path.as_str()),
            Finished::Copied { src, dst } => cat4("Copied ", src.as_str(), " -> ", dst.as_str()),
            Finished::WifiAdded => "Wi-Fi network added".to_owned(),
            Finished::WifiRemoved => "Wi-Fi network removed".to_owned(),
            Finished::DatetimeSet => "Device datetime updated".to_owned(),
            Finished::TemplateUploaded { local, remote } => cat4(
                "Uploaded template ",
                local.as_str(),
                " -> ",
                remote.as_str(),
            ),
            Finished::TemplateDeleted { name } => cat2("Deleted template ", name.as_str()),
            Finished::FirmwareUploaded { local } => cat2(
                "Firmware update uploaded from ",
                local.as_str(),
            ),
            Finished::Synchronised => "Sync completed".to_owned(),
            Finished::Paired { addr } => cat2("Pair succeeded for ", addr.as_str()),
        }
    }
}

/// A line of the debug log.
pub fn debug_line(timestamp: &str, component: &str, message: &str) -> (r: String)
    ensures
        r@ == "["@ + timestamp@ + "] ["@ + component@ + "] "@ + message@ + "\n"@,
{
    let first = crate::text::cat6("[", timestamp, "] [", component, "] ", message);
    cat2(first.as_str(), "\n")
}

/// Connecting with an address works with that address throughout: it is probed,
/// logged in at, and told as where the device is. It need not answer only where it
/// is the announced name.
pub proof fn connects_to_the_address_given(
    addr: Seq<char>,
    hint: Option<TransportKind>,
    h: ConnectHistory,
)
    ensures
        match connect_step(Some(addr), hint, h) {
            ConnectStepView::Discover => false,
            ConnectStepView::Probe(a) => a == addr && h.probed is None,
            ConnectStepView::Login(a) => a == addr && h.login is None && (h.probed == Some(true)
                || addr == DEFAULT_DEVICE_HOST@),
            ConnectStepView::Done(device) => {
                &&& device.reachable_addrs == seq![addr]
                &&& device.id == "rust-"@ + addr
                &&& device.paired <==> (h.login is Some && h.login->Some_0 is Some)
                &&& hint is Some ==> device.transport_kinds == seq![hint->Some_0]
                &&& hint is None ==> device.transport_kinds == seq![TransportKind::Wifi]
                &&& h.probed == Some(true) || addr == DEFAULT_DEVICE_HOST@
            },
            ConnectStepView::Failed(e) => e == ErrorView::TransportUnreachable && h.probed == Some(
                false,
            ) && addr != DEFAULT_DEVICE_HOST@,
        },
        h.probed is None ==> connect_step(Some(addr), hint, h) is Probe,
        h.probed == Some(true) && h.login is None ==> connect_step(Some(addr), hint, h) is Login,
        h.probed == Some(true) && h.login is Some ==> connect_step(Some(addr), hint, h) is Done,
{
}

/// Connecting without an address is connecting with the first address of the
/// first device that was discovered; without one it fails.
pub proof fn connects_to_the_first_device_found(
    hint: Option<TransportKind>,
    h: ConnectHistory,
    devices: Vec<DeviceSummary>,
)
    requires
        h.discovered == Some(Ok::<Vec<DeviceSummary>, RustProviderError>(devices)),
    ensures
        devices@.len() > 0 && devices@[0].reachable_addrs@.len() > 0 ==> connect_step(None, hint, h)
            == connect_step(Some(devices@[0].reachable_addrs@[0]@), hint, h),
        devices@.len() == 0 ==> connect_step(None, hint, h) == ConnectStepView::Failed(
            ErrorView::DeviceNotFound,
        ),
{
}

/// Pairing stores the credentials that it made, and logs in with them at the
/// device that is paired with; a PIN that is not eight digits is refused at once.
pub proof fn pairing_uses_what_it_made(
    pending: PendingPairing,
    pin: Seq<char>,
    h: PairHistory,
    made: (String, String),
)
    requires
        h.finished == Some(Ok::<(String, String), RustProviderError>(made)),
    ensures
        !(pin.len() == 8 && forall|i: int| 0 <= i < 8 ==> '0' <= #[trigger] pin[i] <= '9')
            ==> pair_step(Some(pending), pin, h) == PairingStepView::Failed(ErrorView::PinInvalid),
        pin.len() == 8 && (forall|i: int| 0 <= i < 8 ==> '0' <= #[trigger] pin[i] <= '9') ==> match pair_step(
            Some(pending),
            pin,
            h,
        ) {
            PairingStepView::Store(client_id, key) => h.stored is None && client_id == made.0@
                && key == made.1@,
            PairingStepView::Login(addr, client_id, key) => h.stored is Some && h.stored->Some_0 is Ok
                && h.login is None && addr == pending.addr@ && client_id == made.0@ && key
                == made.1@,
            PairingStepView::Done(device, session) => {
                &&& h.stored is Some && h.stored->Some_0 is Ok
                &&& (h.login matches Some(Ok(opened)) && session == opened.deep_view())
                &&& device.paired
                &&& device.reachable_addrs == seq![pending.addr@]
            },
            PairingStepView::Failed(e) => (h.stored matches Some(Err(f)) && f.deep_view() == e) || (
            h.login matches Some(Err(f)) && f.deep_view() == e),
            _ => false,
        },
{
    if is_pin(pin) {
        assert forall|i: int| 0 <= i < 8 implies '0' <= #[trigger] pin[i] <= '9' by {
            assert(crate::numbers::is_digit(pin[i]));
        }
    } else if pin.len() == 8 && forall|i: int| 0 <= i < 8 ==> '0' <= #[trigger] pin[i] <= '9' {
        assert forall|i: int| 0 <= i < pin.len() implies crate::numbers::is_digit(
            #[trigger] pin[i],
        ) by {}
        assert(is_pin(pin));
    }
}

/// A login at an address is made with the credentials that are stored, both of them.
pub proof fn login_uses_the_stored_credentials(addr: Seq<char>, stored: StoredCredentials)
    ensures
        match login_need(addr, stored) {
            SessionNeedView::Login(a, client_id, key) => a == addr && (stored.client_id matches Some(
                c,
            ) && c@ == client_id) && (stored.private_key matches Some(k) && k@ == key),
            SessionNeedView::Failed(e) => e == ErrorView::PairingRequired && (
            stored.client_id is None || stored.private_key is None),
            SessionNeedView::Have(_) => false,
        },
{
}

/// A file that is looked for by its name is one with that name, and none is found
/// only where no file has it.
pub proof fn file_is_found_by_its_name(files: Seq<WalkedFile>, name: Seq<char>)
    ensures
        match last_named(files, name) {
            Some(path) => exists|k: int|
                0 <= k < files.len() && (#[trigger] files[k]).name@ == name && files[k].path@ == path
                    && forall|j: int| k < j < files.len() ==> (#[trigger] files[j]).name@ != name,
            None => forall|k: int| 0 <= k < files.len() ==> (#[trigger] files[k]).name@ != name,
        },
    decreases files.len(),
{
    if files.len() > 0 {
        let last = files.len() - 1;
        if files[last].name@ != name {
            let init = files.drop_last();
            file_is_found_by_its_name(init, name);
            match last_named(init, name) {
                Some(path) => {
                    let k = choose|k: int|
                        0 <= k < init.len() && (#[trigger] init[k]).name@ == name && init[k].path@
                            == path && forall|j: int|
                            k < j < init.len() ==> (#[trigger] init[j]).name@ != name;
                    assert(files[k] == init[k]);
                    assert forall|j: int| k < j < files.len() implies (#[trigger] files[j]).name@
                        != name by {
                        if j < last {
                            assert(files[j] == init[j]);
                        }
                    }
                },
                None => {
                    assert forall|j: int| 0 <= j < files.len() implies (#[trigger] files[j]).name@
                        != name by {
                        if j < last {
                            assert(files[j] == init[j]);
                        }
                    }
                },
            }
        } else {
            assert(files[last].path@ == files.last().path@);
        }
    }
}

} // verus!
