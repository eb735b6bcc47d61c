//! The decisions of starting the engine and of replacing its credentials.
use vstd::prelude::*;
use vstd::string::*;
use crate::error::{error, ErrorKind, ErrorView, MatError};
use crate::text;

verus! {

/// Where the interface of the Thread mesh comes from.
///
/// A given one must resolve; a detected one that does not is left out.
#[derive(Debug, PartialEq, Eq)]
pub enum ThreadIfaceChoice {
    Explicit(String),
    Auto(String),
}

/// The settings that the engine starts from.
#[derive(Debug, PartialEq, Eq)]
pub struct NativeConfig {
    /// The directory of the credential store.
    pub store: String,
    /// The interface that operations go out on.
    pub iface: String,
    /// The interface of the Thread mesh, for groupcast.
    pub thread_iface: Option<ThreadIfaceChoice>,
    /// The index of the fabric in the store.
    pub fabric_index: u8,
    /// The index of the issuer in the store.
    pub issuer_index: u8,
}

/// What a subscription was granted.
#[derive(Debug, Clone, Copy, PartialEq, Eq, Structural)]
pub struct SubscriptionInfo {
    pub subscription_id: u32,
    pub max_interval_s: u16,
}

/// The shortest interval between reports that is asked for, in seconds.
pub const SUBSCRIBE_MIN_INTERVAL_FLOOR_S: u16 = 0;

/// The longest interval between reports that is asked for, in seconds.
pub const SUBSCRIBE_MAX_INTERVAL_CEILING_S: u16 = 300;

/// Whether earlier subscriptions of this controller stay.
pub const SUBSCRIBE_KEEP_SUBSCRIPTIONS: bool = false;

/// The time a device is given to follow up a timed request, in milliseconds.
pub const TIMED_REQUEST_MS: u16 = 10_000;

/// The name of the interface in a choice.
pub open spec fn choice_name(c: ThreadIfaceChoice) -> String {
    match c {
        ThreadIfaceChoice::Explicit(n) => n,
        ThreadIfaceChoice::Auto(n) => n,
    }
}

/// The detail for a given Thread interface that does not resolve.
pub open spec fn unresolved_thread(name: Seq<char>, e: Seq<char>) -> Seq<char> {
    "native: resolve thread iface "@ + text::quoted_text(name) + " index: "@ + e
        + " (explicit MAT_THREAD_IFACE must resolve)"@
}

/// The second egress of groupcast for an answer to the lookup of the Thread
/// interface.
pub open spec fn egress_for(c: ThreadIfaceChoice, answer: Result<u32, String>) -> Result<
    Option<(Seq<char>, u32)>,
    Seq<char>,
> {
    match answer {
        Ok(index) => Ok(Some((choice_name(c)@, index))),
        Err(e) => match c {
            ThreadIfaceChoice::Explicit(n) => Err(unresolved_thread(n@, e@)),
            ThreadIfaceChoice::Auto(_) => Ok(None),
        },
    }
}

/// What a decision on the second egress says.
pub open spec fn egress_view(r: Result<Option<(String, u32)>, String>) -> Result<
    Option<(Seq<char>, u32)>,
    Seq<char>,
> {
    match r {
        Ok(Some((n, i))) => Ok(Some((n@, i))),
        Ok(None) => Ok(None),
        Err(e) => Err(e@),
    }
}

/// The second egress of groupcast, once the lookup of the interface answered.
pub fn decide_egress(c: &ThreadIfaceChoice, answer: Result<u32, String>) -> (r: Result<
    Option<(String, u32)>,
    String,
>)
    ensures
        egress_view(r) == egress_for(*c, answer),
{
    match answer {
        Ok(index) => match c {
            ThreadIfaceChoice::Explicit(n) | ThreadIfaceChoice::Auto(n) => Ok(
                Some((n.clone(), index)),
            ),
        },
        Err(e) => match c {
            ThreadIfaceChoice::Explicit(n) => Err(
                "native: resolve thread iface ".to_owned().concat(&text::quote(n)).concat(
                    " index: ",
                ).concat(&e).concat(" (explicit MAT_THREAD_IFACE must resolve)"),
            ),
            ThreadIfaceChoice::Auto(_) => Ok(None),
        },
    }
}

/// Whether the Thread interface has to be looked up: there is one, and it is
/// not the interface of the operations.
pub open spec fn needs_lookup(op_iface: Seq<char>, choice: Option<ThreadIfaceChoice>) -> bool {
    choice matches Some(c) && choice_name(c)@ != op_iface
}

/// Decides the second egress of groupcast.
///
/// Without a Thread interface, or with one that is the interface of the
/// operations already, nothing is looked up and there is no second egress.
pub fn thread_egress_decision<F: Fn(&str) -> Result<u32, String>>(
    op_iface: &str,
    choice: &Option<ThreadIfaceChoice>,
    resolve: F,
) -> (r: Result<Option<(String, u32)>, String>)
    requires
        needs_lookup(op_iface@, *choice) ==> forall|s: &str|
            s@ == choice_name(choice.unwrap())@ ==> #[trigger] call_requires(resolve, (s,)),
    ensures
        !needs_lookup(op_iface@, *choice) ==> r == Ok::<Option<(String, u32)>, String>(None),
        needs_lookup(op_iface@, *choice) ==> exists|s: &str, a: Result<u32, String>|
            s@ == choice_name(choice.unwrap())@ && #[trigger] call_ensures(resolve, (s,), a)
                && egress_view(r) == egress_for(choice.unwrap(), a),
{
    match choice {
        None => Ok(None),
        Some(c) => {
            let name: &String = match c {
                ThreadIfaceChoice::Explicit(n) | ThreadIfaceChoice::Auto(n) => n,
            };
            if text::same(name, op_iface) {
                return Ok(None);
            }
            let s: &str = name.as_str();
            let a = resolve(s);
            assert(call_ensures(resolve, (s,), a));
            decide_egress(c, a)
        },
    }
}

/// The error for credentials that the store does not hold.
pub open spec fn materials_error(e: Seq<char>) -> ErrorView {
    error(
        ErrorKind::StoreMissing,
        "native: read KVS credentials: "@ + e + " — run `mat fabric init`"@,
    )
}

/// The materials of the store, which may be missing.
pub fn load_self_issue_materials<T>(read: Result<T, String>) -> (r: Result<T, MatError>)
    ensures
        match read {
            Ok(t) => r == Ok::<T, MatError>(t),
            Err(e) => r matches Err(x) && x@ == materials_error(e@),
        },
{
    match read {
        Ok(t) => Ok(t),
        Err(e) => Err(
            MatError::new(
                ErrorKind::StoreMissing,
                "native: read KVS credentials: ".to_owned().concat(&e).concat(
                    " — run `mat fabric init`",
                ),
            ),
        ),
    }
}

/// The error for materials that no credentials can be issued from.
pub open spec fn issue_error(e: Seq<char>) -> ErrorView {
    error(
        ErrorKind::StoreParse,
        "native: self-issue NOC: "@ + e + " — run `mat fabric init`"@,
    )
}

/// The credentials issued from the materials, which may be inconsistent.
pub fn self_issue_credentials<T>(issued: Result<T, String>) -> (r: Result<T, MatError>)
    ensures
        match issued {
            Ok(t) => r == Ok::<T, MatError>(t),
            Err(e) => r matches Err(x) && x@ == issue_error(e@),
        },
{
    match issued {
        Ok(t) => Ok(t),
        Err(e) => Err(
            MatError::new(
                ErrorKind::StoreParse,
                "native: self-issue NOC: ".to_owned().concat(&e).concat(" — run `mat fabric init`"),
            ),
        ),
    }
}

/// The credentials of the store: its materials first, then what is issued from
/// them.
pub fn load_fabric_credentials<T>(read: Result<Result<T, String>, String>) -> (r: Result<
    T,
    MatError,
>)
    ensures
        match read {
            Ok(Ok(t)) => r == Ok::<T, MatError>(t),
            Ok(Err(e)) => r matches Err(x) && x@ == issue_error(e@),
            Err(e) => r matches Err(x) && x@ == materials_error(e@),
        },
{
    match load_self_issue_materials(read) {
        Ok(issued) => self_issue_credentials(issued),
        Err(e) => Err(e),
    }
}

/// The scope of the interface of the operations, which may not resolve.
pub fn op_scope_id(iface: &str, index: Result<u32, String>) -> (r: Result<u32, MatError>)
    ensures
        match index {
            Ok(n) => r == Ok::<u32, MatError>(n),
            Err(e) => r matches Err(x) && x@ == error(
                ErrorKind::Other,
                "native: resolve iface "@ + text::quoted_text(iface@) + " index: "@ + e@,
            ),
        },
{
    match index {
        Ok(n) => Ok(n),
        Err(e) => Err(
            MatError::new(
                ErrorKind::Other,
                "native: resolve iface ".to_owned().concat(&text::quote(iface)).concat(" index: ").concat(
                    &e,
                ),
            ),
        ),
    }
}

/// What the start of the engine does next.
#[derive(Debug, PartialEq, Eq)]
pub enum BuildAction {
    /// Read the credentials of the store.
    LoadCredentials,
    /// Look up the index of the interface of the operations.
    ResolveScope,
    /// Bind the socket of groupcast.
    BindTransport,
    /// Look up the index of the Thread interface.
    ResolveThread,
    /// Open the second egress.
    OpenThread(String, u32),
    /// The engine is ready.
    Ready(EngineParts),
    /// The engine does not start.
    Fail(MatError),
}

/// What the start of the engine settled.
#[derive(Debug, PartialEq, Eq)]
pub struct EngineParts {
    /// The scope of the interface of the operations.
    pub scope_id: u32,
    /// Whether groupcast has a second egress.
    pub thread_egress: bool,
    /// Whether a second egress is looked for again when a groupcast is sent.
    pub thread_retry: bool,
}

/// What came back from an action of the start.
#[derive(Debug, PartialEq, Eq)]
pub enum BuildEvent {
    Credentials(Result<(), MatError>),
    Scope(Result<u32, String>),
    Bound(Result<(), String>),
    ThreadIndex(Result<u32, String>),
    ThreadOpened(Result<(), String>),
}

/// How far the start of the engine is.
#[derive(Debug, Clone, Copy, PartialEq, Eq, Structural)]
pub enum BuildPhase {
    Credentials,
    Scope,
    Transport(u32),
    ThreadIndex(u32),
    ThreadEgress(u32),
    Over,
}

/// What an action of the start says.
pub enum BuildView {
    LoadCredentials,
    ResolveScope,
    BindTransport,
    ResolveThread,
    OpenThread(Seq<char>, u32),
    Ready(EngineParts),
    Fail(ErrorView),
}

impl View for BuildAction {
    type V = BuildView;

    open spec fn view(&self) -> BuildView {
        match *self {
            BuildAction::LoadCredentials => BuildView::LoadCredentials,
            BuildAction::ResolveScope => BuildView::ResolveScope,
            BuildAction::BindTransport => BuildView::BindTransport,
            BuildAction::ResolveThread => BuildView::ResolveThread,
            BuildAction::OpenThread(n, i) => BuildView::OpenThread(n@, i),
            BuildAction::Ready(p) => BuildView::Ready(p),
            BuildAction::Fail(e) => BuildView::Fail(e@),
        }
    }
}

/// Whether the Thread interface was given.
pub open spec fn is_explicit(c: Option<ThreadIfaceChoice>) -> bool {
    c matches Some(ThreadIfaceChoice::Explicit(_))
}

/// The engine with groupcast on one interface only.
pub open spec fn lan_only(c: Option<ThreadIfaceChoice>, scope_id: u32) -> BuildView {
    BuildView::Ready(
        EngineParts { scope_id, thread_egress: false, thread_retry: !is_explicit(c) },
    )
}

/// Whether an event answers the action of a phase.
pub open spec fn answers(p: BuildPhase, ev: BuildEvent) -> bool {
    match p {
        BuildPhase::Credentials => ev is Credentials,
        BuildPhase::Scope => ev is Scope,
        BuildPhase::Transport(_) => ev is Bound,
        BuildPhase::ThreadIndex(_) => ev is ThreadIndex,
        BuildPhase::ThreadEgress(_) => ev is ThreadOpened,
        BuildPhase::Over => false,
    }
}

/// One step of the start: the next phase and the next action.
pub open spec fn build_step(cfg: NativeConfig, p: BuildPhase, ev: BuildEvent) -> (BuildPhase, BuildView) {
    match (p, ev) {
        (BuildPhase::Credentials, BuildEvent::Credentials(Ok(_))) => (
            BuildPhase::Scope,
            BuildView::ResolveScope,
        ),
        (BuildPhase::Credentials, BuildEvent::Credentials(Err(e))) => (
            BuildPhase::Over,
            BuildView::Fail(e@),
        ),
        (BuildPhase::Scope, BuildEvent::Scope(Ok(n))) => (
            BuildPhase::Transport(n),
            BuildView::BindTransport,
        ),
        (BuildPhase::Scope, BuildEvent::Scope(Err(e))) => (
            BuildPhase::Over,
            BuildView::Fail(
                error(
                    ErrorKind::Other,
                    "native: resolve iface "@ + text::quoted_text(cfg.iface@) + " index: "@ + e@,
                ),
            ),
        ),
        (BuildPhase::Transport(n), BuildEvent::Bound(Ok(_))) => if needs_lookup(
            cfg.iface@,
            cfg.thread_iface,
        ) {
            (BuildPhase::ThreadIndex(n), BuildView::ResolveThread)
        } else {
            (BuildPhase::Over, lan_only(cfg.thread_iface, n))
        },
        (BuildPhase::Transport(_), BuildEvent::Bound(Err(e))) => (
            BuildPhase::Over,
            BuildView::Fail(error(ErrorKind::Other, "native: bind udp transport: "@ + e@)),
        ),
        (BuildPhase::ThreadIndex(n), BuildEvent::ThreadIndex(a)) => match egress_for(
            cfg.thread_iface.unwrap(),
            a,
        ) {
            Ok(Some((name, index))) => (
                BuildPhase::ThreadEgress(n),
                BuildView::OpenThread(name, index),
            ),
            Ok(None) => (BuildPhase::Over, lan_only(cfg.thread_iface, n)),
            Err(detail) => (BuildPhase::Over, BuildView::Fail(error(ErrorKind::Other, detail))),
        },
        (BuildPhase::ThreadEgress(n), BuildEvent::ThreadOpened(Ok(_))) => (
            BuildPhase::Over,
            BuildView::Ready(
                EngineParts { scope_id: n, thread_egress: true, thread_retry: false },
            ),
        ),
        (BuildPhase::ThreadEgress(n), BuildEvent::ThreadOpened(Err(e))) => if is_explicit(
            cfg.thread_iface,
        ) {
            (
                BuildPhase::Over,
                BuildView::Fail(
                    error(ErrorKind::Other, "native: bind thread egress socket: "@ + e@),
                ),
            )
        } else {
            (BuildPhase::Over, lan_only(cfg.thread_iface, n))
        },
        _ => (
            BuildPhase::Over,
            BuildView::Fail(error(ErrorKind::Other, "native: event out of order (internal)"@)),
        ),
    }
}

/// The start of the engine.
pub struct Build {
    pub cfg: NativeConfig,
    pub phase: BuildPhase,
}

impl Build {
    /// A phase that looks the Thread interface up has one.
    pub open spec fn wf(self) -> bool {
        self.phase is ThreadIndex || self.phase is ThreadEgress ==> self.cfg.thread_iface is Some
    }

    /// Begins with the credentials.
    pub fn new(cfg: NativeConfig) -> (r: (Build, BuildAction))
        ensures
            r.0.cfg == cfg,
            r.0.phase == BuildPhase::Credentials,
            r.0.wf(),
            r.1@ == BuildView::LoadCredentials,
    {
        (Build { cfg, phase: BuildPhase::Credentials }, BuildAction::LoadCredentials)
    }

    fn lan(&mut self, scope_id: u32) -> (a: BuildAction)
        ensures
            *final(self) == (Build { phase: BuildPhase::Over, ..*old(self) }),
            a@ == lan_only(old(self).cfg.thread_iface, scope_id),
    {
        self.phase = BuildPhase::Over;
        let explicit = match &self.cfg.thread_iface {
            Some(ThreadIfaceChoice::Explicit(_)) => true,
            _ => false,
        };
        BuildAction::Ready(
            EngineParts { scope_id, thread_egress: false, thread_retry: !explicit },
        )
    }

    fn fail(&mut self, e: MatError) -> (a: BuildAction)
        ensures
            *final(self) == (Build { phase: BuildPhase::Over, ..*old(self) }),
            a@ == BuildView::Fail(e@),
    {
        self.phase = BuildPhase::Over;
        BuildAction::Fail(e)
    }

    /// Takes what came back and says what to do next.
    pub fn step(&mut self, ev: BuildEvent) -> (a: BuildAction)
        requires
            old(self).wf(),
        ensures
            final(self).wf(),
            final(self).cfg == old(self).cfg,
            (final(self).phase, a@) == build_step(old(self).cfg, old(self).phase, ev),
    {
        match (self.phase, ev) {
            (BuildPhase::Credentials, BuildEvent::Credentials(r)) => match r {
                Ok(_) => {
                    self.phase = BuildPhase::Scope;
                    BuildAction::ResolveScope
                },
                Err(e) => self.fail(e),
            },
            (BuildPhase::Scope, BuildEvent::Scope(r)) => match op_scope_id(&self.cfg.iface, r) {
                Ok(n) => {
                    self.phase = BuildPhase::Transport(n);
                    BuildAction::BindTransport
                },
                Err(e) => self.fail(e),
            },
            (BuildPhase::Transport(n), BuildEvent::Bound(r)) => match r {
                Ok(_) => {
                    let lookup = match &self.cfg.thread_iface {
                        None => false,
                        Some(ThreadIfaceChoice::Explicit(name)) => !text::same(
                            name,
                            &self.cfg.iface,
                        ),
                        Some(ThreadIfaceChoice::Auto(name)) => !text::same(name, &self.cfg.iface),
                    };
                    if lookup {
                        self.phase = BuildPhase::ThreadIndex(n);
                        BuildAction::ResolveThread
                    } else {
                        self.lan(n)
                    }
                },
                Err(e) => self.fail(
                    MatError::new(
                        ErrorKind::Other,
                        "native: bind udp transport: ".to_owned().concat(&e),
                    ),
                ),
            },
            (BuildPhase::ThreadIndex(n), BuildEvent::ThreadIndex(answer)) => {
                let decision = match &self.cfg.thread_iface {
                    Some(c) => decide_egress(c, answer),
                    None => Ok(None),
                };
                match decision {
                    Ok(Some((name, index))) => {
                        self.phase = BuildPhase::ThreadEgress(n);
                        BuildAction::OpenThread(name, index)
                    },
                    Ok(None) => self.lan(n),
                    Err(detail) => self.fail(MatError::new(ErrorKind::Other, detail)),
                }
            },
            (BuildPhase::ThreadEgress(n), BuildEvent::ThreadOpened(r)) => match r {
                Ok(_) => {
                    self.phase = BuildPhase::Over;
                    BuildAction::Ready(
                        EngineParts { scope_id: n, thread_egress: true, thread_retry: false },
                    )
                },
                Err(e) => {
                    let explicit = match &self.cfg.thread_iface {
                        Some(ThreadIfaceChoice::Explicit(_)) => true,
                        _ => false,
                    };
                    if explicit {
                        self.fail(
                            MatError::new(
                                ErrorKind::Other,
                                "native: bind thread egress socket: ".to_owned().concat(&e),
                            ),
                        )
                    } else {
                        self.lan(n)
                    }
                },
            },
            _ => self.fail(
                MatError::fixed(ErrorKind::Other, "native: event out of order (internal)"),
            ),
        }
    }
}

/// An engine that started with a given Thread interface of its own uses it: it
/// never runs without the second egress, nor looks for it again.
pub proof fn law_explicit_thread_is_never_degraded(cfg: NativeConfig, p: BuildPhase, ev: BuildEvent)
    requires
        is_explicit(cfg.thread_iface),
        choice_name(cfg.thread_iface.unwrap())@ != cfg.iface@,
    ensures
        build_step(cfg, p, ev).1 matches BuildView::Ready(parts) ==> parts.thread_egress
            && !parts.thread_retry,
{
}

/// An engine whose Thread interface was detected, or that has none, always
/// starts once the rest is there: a Thread failure never stops it.
pub proof fn law_detected_thread_never_fails(cfg: NativeConfig, p: BuildPhase, ev: BuildEvent)
    requires
        !is_explicit(cfg.thread_iface),
        p is ThreadIndex || p is ThreadEgress,
        cfg.thread_iface is Some,
        answers(p, ev),
    ensures
        !(build_step(cfg, p, ev).1 is Fail),
        build_step(cfg, p, ev).1 matches BuildView::Ready(parts) ==> parts.thread_egress
            == !parts.thread_retry,
{
}

/// The credentials of a fabric, as far as they are compared.
#[derive(Debug, PartialEq, Eq)]
pub struct FabricCredentials {
    pub fabric_id: u64,
    pub node_id: u64,
    pub root_public_key: Vec<u8>,
    pub ipk_operational: Vec<u8>,
}

/// Whether two credentials are of the same fabric and node.
pub open spec fn same_identity(a: FabricCredentials, b: FabricCredentials) -> bool {
    a.fabric_id == b.fabric_id && a.node_id == b.node_id && a.root_public_key@
        == b.root_public_key@
}

/// Whether two byte strings are the same.
pub fn same_bytes(a: &Vec<u8>, b: &Vec<u8>) -> (r: bool)
    ensures
        r == (a@ == b@),
{
    if a.len() != b.len() {
        return false;
    }
    let mut i: usize = 0;
    while i < a.len()
        invariant
            a.len() == b.len(),
            i <= a.len(),
            forall|k: int| 0 <= k < i ==> a@[k] == b@[k],
        decreases a.len() - i,
    {
        if a[i] != b[i] {
            return false;
        }
        i += 1;
    }
    assert(a@ =~= b@);
    true
}

/// The error for credentials of another fabric.
pub open spec fn identity_changed() -> ErrorView {
    error(
        ErrorKind::Other,
        "fabric identity changed (fabric_id/node_id/root key) since start-up; restart matd"@,
    )
}

/// Accepts fresh credentials only where they are of the same fabric and node.
pub fn check_identity(current: &FabricCredentials, fresh: &FabricCredentials) -> (r: Result<
    (),
    MatError,
>)
    ensures
        r is Ok <==> same_identity(*current, *fresh),
        r matches Err(e) ==> e@ == identity_changed(),
{
    if current.fabric_id != fresh.fabric_id || current.node_id != fresh.node_id || !same_bytes(
        &current.root_public_key,
        &fresh.root_public_key,
    ) {
        Err(
            MatError::fixed(
                ErrorKind::Other,
                "fabric identity changed (fabric_id/node_id/root key) since start-up; restart matd",
            ),
        )
    } else {
        Ok(())
    }
}

/// The credentials that the next session is established with.
pub struct CaseEstablisher {
    pub creds: FabricCredentials,
}

impl CaseEstablisher {
    /// Replaces the credentials and says whether the operational key changed.
    pub fn swap_credentials(&mut self, fresh: FabricCredentials) -> (changed: bool)
        ensures
            final(self).creds == fresh,
            changed == (old(self).creds.ipk_operational@ != fresh.ipk_operational@),
    {
        let changed = !same_bytes(&self.creds.ipk_operational, &fresh.ipk_operational);
        self.creds = fresh;
        changed
    }

    /// Replaces the credentials by those just loaded.
    ///
    /// A failed load and credentials of another fabric leave everything as it
    /// was.
    pub fn reload_credentials(&mut self, loaded: Result<FabricCredentials, MatError>) -> (r: Result<
        bool,
        MatError,
    >)
        ensures
            match loaded {
                Err(e) => r == Err::<bool, MatError>(e) && *final(self) == *old(self),
                Ok(fresh) => if same_identity(old(self).creds, fresh) {
                    final(self).creds == fresh && r == Ok::<bool, MatError>(
                        old(self).creds.ipk_operational@ != fresh.ipk_operational@,
                    )
                } else {
                    *final(self) == *old(self) && (r matches Err(e) && e@ == identity_changed())
                },
            },
    {
        match loaded {
            Err(e) => Err(e),
            Ok(fresh) => match check_identity(&self.creds, &fresh) {
                Err(e) => Err(e),
                Ok(()) => Ok(self.swap_credentials(fresh)),
            },
        }
    }
}

/// An engine is built step by step and keeps the index of the interface that it
/// was given; a Thread interface of its own is looked up and opened, and any
/// other choice leaves the engine to the local network.
pub proof fn law_engine_is_built_step_by_step(
    cfg: NativeConfig,
    n: u32,
    m: u32,
    e: MatError,
    t: String,
)
    ensures
        build_step(cfg, BuildPhase::Credentials, BuildEvent::Credentials(Ok(()))) == (
            BuildPhase::Scope,
            BuildView::ResolveScope,
        ),
        build_step(cfg, BuildPhase::Credentials, BuildEvent::Credentials(Err(e))).1
            == BuildView::Fail(e@),
        build_step(cfg, BuildPhase::Scope, BuildEvent::Scope(Ok(n))) == (
            BuildPhase::Transport(n),
            BuildView::BindTransport,
        ),
        build_step(cfg, BuildPhase::Scope, BuildEvent::Scope(Err(t))).1 matches BuildView::Fail(f)
            && f.kind == ErrorKind::Other,
        build_step(cfg, BuildPhase::Transport(n), BuildEvent::Bound(Err(t))).1 matches BuildView::Fail(
            f,
        ) && f.kind == ErrorKind::Other,
        (cfg.thread_iface matches Some(c) ==> choice_name(c)@ == cfg.iface@) ==> (build_step(
            cfg,
            BuildPhase::Transport(n),
            BuildEvent::Bound(Ok(())),
        ).1 matches BuildView::Ready(parts) && parts.scope_id == n && !parts.thread_egress),
        (cfg.thread_iface matches Some(c) && choice_name(c)@ != cfg.iface@) ==> build_step(
            cfg,
            BuildPhase::Transport(n),
            BuildEvent::Bound(Ok(())),
        ) == (BuildPhase::ThreadIndex(n), BuildView::ResolveThread),
        cfg.thread_iface matches Some(c) ==> build_step(
            cfg,
            BuildPhase::ThreadIndex(n),
            BuildEvent::ThreadIndex(Ok(m)),
        ) == (BuildPhase::ThreadEgress(n), BuildView::OpenThread(choice_name(c)@, m)),
        build_step(cfg, BuildPhase::ThreadEgress(n), BuildEvent::ThreadOpened(Ok(()))).1
            == BuildView::Ready(
            EngineParts { scope_id: n, thread_egress: true, thread_retry: false },
        ),
        cfg.thread_iface matches Some(ThreadIfaceChoice::Auto(_)) ==> (build_step(
            cfg,
            BuildPhase::ThreadEgress(n),
            BuildEvent::ThreadOpened(Err(t)),
        ).1 matches BuildView::Ready(parts) && parts.scope_id == n && !parts.thread_egress
            && parts.thread_retry),
        cfg.thread_iface matches Some(ThreadIfaceChoice::Explicit(_)) ==> build_step(
            cfg,
            BuildPhase::ThreadEgress(n),
            BuildEvent::ThreadOpened(Err(t)),
        ).1 is Fail,
{
}

/// The name of a choice is the one that was given, and an interface that was
/// named must be there while one that was found need not be.
pub proof fn law_named_interface_must_be_there(name: String, index: u32, t: String)
    ensures
        egress_for(ThreadIfaceChoice::Explicit(name), Ok(index)) == Ok::<
            Option<(Seq<char>, u32)>,
            Seq<char>,
        >(Some((name@, index))),
        egress_for(ThreadIfaceChoice::Auto(name), Ok(index)) == Ok::<
            Option<(Seq<char>, u32)>,
            Seq<char>,
        >(Some((name@, index))),
        egress_for(ThreadIfaceChoice::Explicit(name), Err(t)) is Err,
        egress_for(ThreadIfaceChoice::Auto(name), Err(t)) == Ok::<
            Option<(Seq<char>, u32)>,
            Seq<char>,
        >(None),
{
}

/// An identity is the fabric, the node and the root key; the group key may
/// change.
pub proof fn law_identity_is_fabric_node_and_root(a: FabricCredentials, b: FabricCredentials)
    ensures
        same_identity(a, b) <==> a.fabric_id == b.fabric_id && a.node_id == b.node_id
            && a.root_public_key@ == b.root_public_key@,
        same_identity(a, b) == same_identity(b, a),
{
}

/// Credentials that are not there are told apart from those that cannot be
/// used, and both tell what is amiss.
pub proof fn law_credential_failures_are_told_apart(
    e: Seq<char>,
    cfg: NativeConfig,
    n: u32,
    t: String,
)
    ensures
        materials_error(e).kind == ErrorKind::StoreMissing,
        issue_error(e).kind == ErrorKind::StoreParse,
        text::occurs(materials_error(e).detail, e),
        text::occurs(issue_error(e).detail, e),
        identity_changed().kind == ErrorKind::Other,
        cfg.thread_iface matches Some(ThreadIfaceChoice::Explicit(_)) ==> (build_step(
            cfg,
            BuildPhase::ThreadEgress(n),
            BuildEvent::ThreadOpened(Err(t)),
        ).1 matches BuildView::Fail(f) && f.kind == ErrorKind::Other),
        cfg.thread_iface matches Some(ThreadIfaceChoice::Explicit(_)) ==> (build_step(
            cfg,
            BuildPhase::ThreadIndex(n),
            BuildEvent::ThreadIndex(Err(t)),
        ).1 matches BuildView::Fail(f) && f.kind == ErrorKind::Other),
{
    let a = materials_error(e).detail;
    let k: int = "native: read KVS credentials: "@.len() as int;
    assert(a.subrange(k, k + e.len()) =~= e);
    assert(text::occurs_at(a, e, k));
    let b = issue_error(e).detail;
    let m: int = "native: self-issue NOC: "@.len() as int;
    assert(b.subrange(m, m + e.len()) =~= e);
    assert(text::occurs_at(b, e, m));
}

/// An event that comes out of its order ends the building.
pub proof fn law_event_out_of_order_ends_the_building(
    cfg: NativeConfig,
    p: BuildPhase,
    ev: BuildEvent,
)
    requires
        !answers(p, ev),
    ensures
        build_step(cfg, p, ev).0 == BuildPhase::Over,
        build_step(cfg, p, ev).1 matches BuildView::Fail(e) && e.kind == ErrorKind::Other,
{
}

/// A subscription reports at once and at least every five minutes, and a timed
/// request has ten seconds.
pub proof fn law_times_of_a_session()
    ensures
        SUBSCRIBE_MIN_INTERVAL_FLOOR_S == 0,
        SUBSCRIBE_MAX_INTERVAL_CEILING_S == 300,
        !SUBSCRIBE_KEEP_SUBSCRIPTIONS,
        TIMED_REQUEST_MS == 10_000,
{
}

} // verus!
