//! Commissioning: the setup code, the routes to try, and what each failure
//! means for the next route.
//!
//! A route is abandoned for the next one only where the failure came before
//! the device could have armed its fail-safe.
use vstd::prelude::*;
use vstd::string::*;
use crate::cli::transport_fits;
use crate::engine::same_bytes;
use crate::errmap::{DnssdClass, DnssdFailure, SessionClass};
use crate::error::{error, ErrorKind, ErrorView, MatError};
use crate::text;

verus! {

/// The route that the user asks for.
#[derive(Debug, Clone, Copy, PartialEq, Eq, Structural)]
pub enum Transport {
    /// On the network where the device is seen there, then over BLE.
    Auto,
    /// On the network only.
    OnNetwork,
    /// Over BLE only; the network is not searched.
    Ble,
}

impl Default for Transport {
    fn default() -> (t: Transport)
        ensures
            t == Transport::Auto,
    {
        Transport::Auto
    }
}

/// What commissioning is asked to do.
#[derive(Debug, PartialEq, Eq)]
pub struct CommissionRequest {
    pub setup_code: String,
    pub device_node_id: u64,
    /// The Thread dataset, for the BLE route.
    pub thread_dataset: Option<Vec<u8>>,
    pub paa_dir: Option<String>,
    pub cd_signer_dir: Option<String>,
    pub transport: Transport,
}

/// Whether the route over BLE can be taken: only by a build that has BLE, and
/// only with a Thread dataset to hand over.
pub fn ble_usable(ble_feature: bool, req: &CommissionRequest) -> (b: bool)
    ensures
        b == (ble_feature && req.thread_dataset is Some),
{
    ble_feature && req.thread_dataset.is_some()
}

/// A setup code: a QR payload has a long discriminator, a manual code only a
/// short one.
#[derive(Debug, Clone, Copy, PartialEq, Eq, Structural)]
pub enum Code {
    Qr { passcode: u32, long: u16 },
    Manual { passcode: u32, short: u8 },
}

impl Code {
    /// The passcode.
    pub fn passcode(&self) -> (r: u32)
        ensures
            r == match *self {
                Code::Qr { passcode, .. } => passcode,
                Code::Manual { passcode, .. } => passcode,
            },
    {
        match self {
            Code::Qr { passcode, .. } => *passcode,
            Code::Manual { passcode, .. } => *passcode,
        }
    }

    /// The long discriminator, which only a QR payload has.
    pub fn long(&self) -> (r: Option<u16>)
        ensures
            r == match *self {
                Code::Qr { long, .. } => Some(long),
                Code::Manual { .. } => None,
            },
    {
        match self {
            Code::Qr { long, .. } => Some(*long),
            Code::Manual { .. } => None,
        }
    }
}

/// Where a device is addressed on the network.
#[derive(Debug, Clone, Copy, PartialEq, Eq)]
pub enum CommissionTarget {
    Discriminator(u16),
    Addr { segments: [u16; 8], port: u16, scope_id: u32 },
}

/// An IPv6 address and its text.
#[derive(Debug, PartialEq, Eq)]
pub struct Address {
    pub segments: [u16; 8],
    pub text: String,
}

/// A device that offers itself for commissioning.
#[derive(Debug, PartialEq, Eq)]
pub struct CommissionableInstance {
    pub port: Option<u16>,
    pub addresses: Vec<Address>,
    pub discriminator: Option<u32>,
}

/// What the search of the network gave.
#[derive(Debug, PartialEq, Eq)]
pub enum Discovered {
    /// The network was not searched.
    NotConsulted,
    Hit { target: CommissionTarget, label: String },
    Miss,
}

/// A route to try.
#[derive(Debug, PartialEq, Eq)]
pub enum Route {
    OnNetwork { target: CommissionTarget, label: String },
    Ble,
}

/// What a route says.
pub enum RouteView {
    OnNetwork { target: CommissionTarget, label: Seq<char> },
    Ble,
}

impl View for Route {
    type V = RouteView;

    open spec fn view(&self) -> RouteView {
        match *self {
            Route::OnNetwork { target, label } => RouteView::OnNetwork { target, label: label@ },
            Route::Ble => RouteView::Ble,
        }
    }
}

impl RouteView {
    /// The name of the route in messages.
    pub open spec fn label(self) -> Seq<char> {
        match self {
            RouteView::OnNetwork { target, label } => label,
            RouteView::Ble => "ble"@,
        }
    }
}

impl Route {
    /// The name of the route in messages.
    pub fn label(&self) -> (s: String)
        ensures
            s@ == self@.label(),
    {
        match self {
            Route::OnNetwork { label, .. } => label.clone(),
            Route::Ble => "ble".to_owned(),
        }
    }
}

/// What some routes say.
pub open spec fn routes_view(routes: Seq<Route>) -> Seq<RouteView> {
    Seq::new(routes.len(), |i: int| routes[i]@)
}

/// The routes to try, in order, or why there is none.
pub open spec fn planned(code: Code, transport: Transport, d: Discovered, ble_usable: bool) -> Result<
    Seq<RouteView>,
    ErrorView,
> {
    if transport == Transport::Ble {
        if code is Qr {
            Ok(seq![RouteView::Ble])
        } else {
            Err(
                error(
                    ErrorKind::Other,
                    "native commissioning: --transport ble requires the QR payload (manual code has no long discriminator) — should have been rejected by the CLI"@,
                ),
            )
        }
    } else {
        match d {
            Discovered::Hit { target, label } => {
                let first = seq![RouteView::OnNetwork { target, label: label@ }];
                if transport == Transport::Auto && code is Qr && ble_usable {
                    Ok(first.push(RouteView::Ble))
                } else {
                    Ok(first)
                }
            },
            Discovered::Miss => if code is Qr && transport == Transport::Auto {
                Ok(seq![RouteView::Ble])
            } else if code is Qr {
                Err(
                    error(
                        ErrorKind::Unreachable,
                        "native commissioning: not found via mDNS (--transport on-network does not fall back to BLE)"@,
                    ),
                )
            } else {
                Err(
                    error(
                        ErrorKind::Unreachable,
                        "native commissioning: not found via mDNS (manual code cannot use BLE; use the QR payload)"@,
                    ),
                )
            },
            Discovered::NotConsulted => Err(
                error(
                    ErrorKind::Other,
                    "native commissioning: mdns was not consulted outside --transport ble (internal)"@,
                ),
            ),
        }
    }
}

/// What a plan says.
pub open spec fn plan_view(r: Result<Vec<Route>, MatError>) -> Result<Seq<RouteView>, ErrorView> {
    match r {
        Ok(v) => Ok(routes_view(v@)),
        Err(e) => Err(e@),
    }
}

fn one_route(r: Route) -> (v: Vec<Route>)
    ensures
        routes_view(v@) == seq![r@],
{
    let mut v: Vec<Route> = Vec::new();
    v.push(r);
    assert(routes_view(v@) =~= seq![r@]);
    v
}

/// Decides the routes to try, in order.
///
/// `ble_usable` says whether the BLE route can run at all. It only keeps BLE
/// from following a hit: after a miss BLE is planned in any case, since what
/// it says when it cannot run is the diagnosis.
pub fn plan_routes(code: &Code, transport: Transport, discovered: &Discovered, ble_usable: bool) -> (r:
    Result<Vec<Route>, MatError>)
    ensures
        plan_view(r) == planned(*code, transport, *discovered, ble_usable),
{
    let is_qr = match code {
        Code::Qr { .. } => true,
        Code::Manual { .. } => false,
    };
    if transport == Transport::Ble {
        if !is_qr {
            return Err(
                MatError::fixed(
                    ErrorKind::Other,
                    "native commissioning: --transport ble requires the QR payload (manual code has no long discriminator) — should have been rejected by the CLI",
                ),
            );
        }
        return Ok(one_route(Route::Ble));
    }
    match discovered {
        Discovered::Hit { target, label } => {
            let mut routes = one_route(Route::OnNetwork { target: *target, label: label.clone() });
            if transport == Transport::Auto && is_qr && ble_usable {
                let ghost before = routes_view(routes@);
                routes.push(Route::Ble);
                assert(routes_view(routes@) =~= before.push(RouteView::Ble));
            }
            Ok(routes)
        },
        Discovered::Miss => {
            if is_qr && transport == Transport::Auto {
                Ok(one_route(Route::Ble))
            } else if is_qr {
                Err(
                    MatError::fixed(
                        ErrorKind::Unreachable,
                        "native commissioning: not found via mDNS (--transport on-network does not fall back to BLE)",
                    ),
                )
            } else {
                Err(
                    MatError::fixed(
                        ErrorKind::Unreachable,
                        "native commissioning: not found via mDNS (manual code cannot use BLE; use the QR payload)",
                    ),
                )
            }
        },
        Discovered::NotConsulted => Err(
            MatError::fixed(
                ErrorKind::Other,
                "native commissioning: mdns was not consulted outside --transport ble (internal)",
            ),
        ),
    }
}

/// A plan is never empty, and a manual code never goes over BLE.
pub proof fn law_plan_shape(code: Code, transport: Transport, d: Discovered, ble_usable: bool)
    ensures
        planned(code, transport, d, ble_usable) matches Ok(p) ==> {
            &&& 1 <= p.len() <= 2
            &&& code is Manual ==> forall|i: int| 0 <= i < p.len() ==> !(#[trigger] p[i] is Ble)
            &&& transport == Transport::OnNetwork ==> forall|i: int|
                0 <= i < p.len() ==> !(#[trigger] p[i] is Ble)
            &&& transport == Transport::Ble ==> p == seq![RouteView::Ble]
            &&& p.len() == 2 ==> p[0] is OnNetwork && p[1] is Ble && ble_usable
        },
{
}

/// The setup code in a text: a QR payload starts with `MT:`.
pub open spec fn parsed_code(
    s: Seq<char>,
    qr: Result<(u32, u16), String>,
    manual: Result<(u32, u8), String>,
) -> Result<Code, ErrorView> {
    if text::has_prefix(s, "MT:"@) {
        match qr {
            Ok((passcode, long)) => Ok(Code::Qr { passcode, long }),
            Err(e) => Err(error(ErrorKind::Other, "invalid QR payload: "@ + e@)),
        }
    } else {
        match manual {
            Ok((passcode, short)) => Ok(Code::Manual { passcode, short }),
            Err(e) => Err(error(ErrorKind::Other, "invalid manual code: "@ + e@)),
        }
    }
}

/// Takes the reading of a setup code that its form calls for: that of a QR
/// payload, or that of a manual code.
pub fn parse_code(s: &str, qr: Result<(u32, u16), String>, manual: Result<(u32, u8), String>) -> (r:
    Result<Code, MatError>)
    ensures
        crate::error::outcome(r) == parsed_code(s@, qr, manual),
{
    if text::starts_with(s, "MT:") {
        match qr {
            Ok((passcode, long)) => Ok(Code::Qr { passcode, long }),
            Err(e) => Err(
                MatError::new(ErrorKind::Other, "invalid QR payload: ".to_owned().concat(&e)),
            ),
        }
    } else {
        match manual {
            Ok((passcode, short)) => Ok(Code::Manual { passcode, short }),
            Err(e) => Err(
                MatError::new(ErrorKind::Other, "invalid manual code: ".to_owned().concat(&e)),
            ),
        }
    }
}

/// A setup code that was admitted with its transport and could be read never
/// meets the refusal of BLE: over BLE it gives exactly the BLE route.
pub proof fn law_admitted_transport_is_planned(
    setup_code: Seq<char>,
    transport: Transport,
    qr: Result<(u32, u16), String>,
    manual: Result<(u32, u8), String>,
    d: Discovered,
    ble_usable: bool,
)
    requires
        transport_fits(transport, setup_code),
    ensures
        parsed_code(setup_code, qr, manual) matches Ok(code) ==> transport == Transport::Ble
            ==> planned(code, transport, d, ble_usable) == Ok::<Seq<RouteView>, ErrorView>(
            seq![RouteView::Ble],
        ),
{
}

/// The classes of a failed PASE.
#[derive(Debug, Clone, Copy, PartialEq, Eq, Structural)]
pub enum PaseClass {
    ExchangeTimeout,
    ConfirmMismatch,
    StatusReport,
    Other,
}

/// The classes of a failed CASE.
#[derive(Debug, Clone, Copy, PartialEq, Eq, Structural)]
pub enum CaseClass {
    ExchangeTimeout,
    PeerStatus,
    Sigma2SignatureInvalid,
    EstablishmentFailed,
    Other,
}

/// The classes of a failed commissioning.
#[derive(Debug, PartialEq, Eq)]
pub enum CommissionClass {
    /// A step that ran out of time, by its name.
    Timeout(String),
    Pase(PaseClass),
    Case(CaseClass),
    Session(SessionClass),
    Attestation,
    Noc,
    CommandStatus,
    NetworkConfig,
    Malformed,
    Csr,
    Discovery,
    /// A step of the BLE link, by its name, with its detail.
    Ble { step: String, detail: String },
    Other,
}

/// A failed commissioning.
#[derive(Debug, PartialEq, Eq)]
pub struct CommissionFailure {
    pub class: CommissionClass,
    pub text: String,
}

/// The kind of a failed commissioning.
pub open spec fn commission_kind(c: CommissionClass) -> ErrorKind {
    match c {
        CommissionClass::Timeout(_) => ErrorKind::Timeout,
        CommissionClass::Pase(PaseClass::ExchangeTimeout) => ErrorKind::Timeout,
        CommissionClass::Case(CaseClass::ExchangeTimeout) => ErrorKind::Timeout,
        CommissionClass::Session(SessionClass::Timeout) => ErrorKind::Timeout,
        CommissionClass::Pase(PaseClass::ConfirmMismatch) => ErrorKind::DeviceRejected,
        CommissionClass::Pase(PaseClass::StatusReport) => ErrorKind::DeviceRejected,
        CommissionClass::Case(CaseClass::PeerStatus) => ErrorKind::DeviceRejected,
        CommissionClass::Case(CaseClass::Sigma2SignatureInvalid) => ErrorKind::DeviceRejected,
        CommissionClass::Case(CaseClass::EstablishmentFailed) => ErrorKind::DeviceRejected,
        CommissionClass::Attestation => ErrorKind::DeviceRejected,
        CommissionClass::Noc | CommissionClass::CommandStatus => ErrorKind::DeviceRejected,
        CommissionClass::NetworkConfig => ErrorKind::Unreachable,
        CommissionClass::Malformed | CommissionClass::Csr => ErrorKind::ParseError,
        _ => ErrorKind::CommissionFailed,
    }
}

/// The kind of a failed commissioning: time that ran out and an explicit
/// refusal are told apart from the rest.
pub fn kind_of(c: &CommissionClass) -> (k: ErrorKind)
    ensures
        k == commission_kind(*c),
{
    match c {
        CommissionClass::Timeout(_) => ErrorKind::Timeout,
        CommissionClass::Pase(p) => match p {
            PaseClass::ExchangeTimeout => ErrorKind::Timeout,
            PaseClass::ConfirmMismatch | PaseClass::StatusReport => ErrorKind::DeviceRejected,
            PaseClass::Other => ErrorKind::CommissionFailed,
        },
        CommissionClass::Case(p) => match p {
            CaseClass::ExchangeTimeout => ErrorKind::Timeout,
            CaseClass::PeerStatus | CaseClass::Sigma2SignatureInvalid
            | CaseClass::EstablishmentFailed => ErrorKind::DeviceRejected,
            CaseClass::Other => ErrorKind::CommissionFailed,
        },
        CommissionClass::Session(s) => match s {
            SessionClass::Timeout => ErrorKind::Timeout,
            _ => ErrorKind::CommissionFailed,
        },
        CommissionClass::Attestation | CommissionClass::Noc | CommissionClass::CommandStatus => {
            ErrorKind::DeviceRejected
        },
        CommissionClass::NetworkConfig => ErrorKind::Unreachable,
        CommissionClass::Malformed | CommissionClass::Csr => ErrorKind::ParseError,
        CommissionClass::Discovery | CommissionClass::Ble { .. } | CommissionClass::Other => {
            ErrorKind::CommissionFailed
        },
    }
}

/// Whether another route may be tried after a failure.
///
/// Each of the three cases comes before PASE is complete, so no fail-safe was
/// armed and the device holds nothing of this attempt.
pub open spec fn dead_end(c: CommissionClass) -> bool {
    match c {
        CommissionClass::Timeout(step) => step@ == "no usable address"@,
        CommissionClass::Pase(p) => p == PaseClass::ExchangeTimeout,
        CommissionClass::Discovery => true,
        _ => false,
    }
}

/// Whether another route may be tried after a failure.
pub fn is_dead_end(c: &CommissionClass) -> (r: bool)
    ensures
        r == dead_end(*c),
{
    match c {
        CommissionClass::Timeout(step) => text::same(step, "no usable address"),
        CommissionClass::Pase(p) => *p == PaseClass::ExchangeTimeout,
        CommissionClass::Discovery => true,
        _ => false,
    }
}

/// A refusal, and every failure of a step behind PASE, ends the attempt: the
/// device answered, or holds state of it.
pub proof fn law_dead_end_is_before_pase(c: CommissionClass)
    ensures
        dead_end(c) ==> commission_kind(c) == ErrorKind::Timeout || c is Discovery,
        commission_kind(c) == ErrorKind::DeviceRejected ==> !dead_end(c),
        c is Case || c is Session || c is Attestation || c is Noc || c is CommandStatus || c
            is NetworkConfig || c is Csr || c is Ble ==> !dead_end(c),
{
}

/// The error of a failed commissioning.
pub open spec fn failed(f: CommissionFailure) -> ErrorView {
    error(commission_kind(f.class), "native commissioning failed: "@ + f.text@)
}

/// The error of a failed commissioning.
pub fn commission_error(f: &CommissionFailure) -> (e: MatError)
    ensures
        e@ == failed(*f),
{
    MatError::new(
        kind_of(&f.class),
        "native commissioning failed: ".to_owned().concat(&f.text),
    )
}

/// A detail without the words that every detail of commissioning starts with.
pub open spec fn shortened(d: Seq<char>) -> Seq<char> {
    if text::has_prefix(d, "native commissioning failed: "@) {
        d.skip("native commissioning failed: "@.len() as int)
    } else if text::has_prefix(d, "native commissioning: "@) {
        d.skip("native commissioning: "@.len() as int)
    } else {
        d
    }
}

/// A detail without the words that every detail of commissioning starts with.
pub fn short_detail(d: &str) -> (s: String)
    ensures
        s@ == shortened(d@),
{
    match text::strip_prefix(d, "native commissioning failed: ") {
        Some(s) => s,
        None => match text::strip_prefix(d, "native commissioning: ") {
            Some(s) => s,
            None => d.to_owned(),
        },
    }
}

/// The error once no route is left: that of the only route as it is, or the
/// list of all of them under the kind of the last.
pub open spec fn composed(failures: Seq<Seq<char>>, last: ErrorView) -> ErrorView {
    if failures.len() <= 1 {
        last
    } else {
        error(
            last.kind,
            "native commissioning: all routes failed — "@ + text::joined(failures, "; "@),
        )
    }
}

/// The error once no route is left.
pub fn compose_failure(failures: &Vec<String>, last: MatError) -> (e: MatError)
    ensures
        e@ == composed(text::texts(failures@), last@),
{
    if failures.len() <= 1 {
        assert(text::texts(failures@).len() <= 1);
        return last;
    }
    MatError::new(
        last.kind,
        "native commissioning: all routes failed — ".to_owned().concat(&text::join(failures, "; ")),
    )
}

/// The upper four bits of a discriminator, which a manual code carries.
pub open spec fn short_of(d: u32) -> u8 {
    #[verifier::truncate]
    ((d >> 8) as u8)
}

/// Whether an instance matches a short discriminator.
pub open spec fn matches_short(c: CommissionableInstance, short: u8) -> bool {
    c.discriminator matches Some(d) && short_of(d) == short
}

/// The error for a short discriminator that several devices share.
pub open spec fn ambiguous_short(short: u8) -> ErrorView {
    error(
        ErrorKind::CommissionFailed,
        "ambiguous short discriminator "@ + text::dec(short as nat)
            + ": multiple commissionable devices"@,
    )
}

/// Finds the only instance with a short discriminator, by its index.
pub fn pick_by_short_strict(list: &Vec<CommissionableInstance>, short: u8) -> (r: Result<
    Option<usize>,
    MatError,
>)
    ensures
        match r {
            Ok(None) => forall|i: int|
                0 <= i < list.len() ==> !matches_short(#[trigger] list@[i], short),
            Ok(Some(k)) => k < list.len() && forall|i: int|
                0 <= i < list.len() ==> (matches_short(#[trigger] list@[i], short) <==> i == k),
            Err(e) => e@ == ambiguous_short(short) && exists|i: int, j: int|
                0 <= i < j < list.len() && matches_short(#[trigger] list@[i], short)
                    && matches_short(#[trigger] list@[j], short),
        },
{
    let mut found: Option<usize> = None;
    let mut i: usize = 0;
    while i < list.len()
        invariant
            i <= list.len(),
            found matches Some(k) ==> k < i && matches_short(list@[k as int], short),
            found is None ==> forall|j: int|
                0 <= j < i ==> !matches_short(#[trigger] list@[j], short),
            found matches Some(k) ==> forall|j: int|
                0 <= j < i ==> (matches_short(#[trigger] list@[j], short) <==> j == k),
        decreases list.len() - i,
    {
        let hit = match list[i].discriminator {
            Some(d) => {
                #[verifier::truncate]
                let s: u8 = (d >> 8) as u8;
                s == short
            },
            None => false,
        };
        assert(hit == matches_short(list@[i as int], short));
        if hit {
            if let Some(k) = found {
                assert(matches_short(list@[k as int], short));
                return Err(
                    MatError::new(
                        ErrorKind::CommissionFailed,
                        "ambiguous short discriminator ".to_owned().concat(
                            &text::decimal(short as u64),
                        ).concat(": multiple commissionable devices"),
                    ),
                );
            }
            found = Some(i);
        }
        i += 1;
    }
    Ok(found)
}

/// What a search says.
pub enum DiscoveredView {
    NotConsulted,
    Hit { target: CommissionTarget, label: Seq<char> },
    Miss,
}

impl View for Discovered {
    type V = DiscoveredView;

    open spec fn view(&self) -> DiscoveredView {
        match *self {
            Discovered::NotConsulted => DiscoveredView::NotConsulted,
            Discovered::Hit { target, label } => DiscoveredView::Hit { target, label: label@ },
            Discovered::Miss => DiscoveredView::Miss,
        }
    }
}

/// Whether an address is link-local.
pub open spec fn is_link_local(a: Address) -> bool {
    a.segments@[0] & 0xffc0 == 0xfe80
}

/// Where an instance is addressed. A link-local address needs the scope of the
/// interface.
pub open spec fn target_of(c: CommissionableInstance, scope_id: u32) -> CommissionTarget {
    let a = c.addresses@[0];
    CommissionTarget::Addr {
        segments: a.segments,
        port: match c.port {
            Some(p) => p,
            None => 5540,
        },
        scope_id: if is_link_local(a) {
            scope_id
        } else {
            0
        },
    }
}

/// What the search found of a device with a QR payload.
pub open spec fn found_qr(long: u16, a: Result<Option<String>, DnssdFailure>) -> Result<
    DiscoveredView,
    ErrorView,
> {
    match a {
        Ok(first) => Ok(
            DiscoveredView::Hit {
                target: CommissionTarget::Discriminator(long),
                label: match first {
                    Some(t) => "on-network("@ + t@ + ")"@,
                    None => "on-network(disc "@ + text::dec(long as nat) + ")"@,
                },
            },
        ),
        Err(e) => if e.class == DnssdClass::Timeout {
            Ok(DiscoveredView::Miss)
        } else {
            Err(
                error(
                    ErrorKind::Unreachable,
                    "native commissioning: mdns resolve: "@ + e.text@,
                ),
            )
        },
    }
}

/// What the search found of a device with a manual code, where the instance
/// was picked.
pub open spec fn found_manual(c: CommissionableInstance, scope_id: u32) -> Result<
    DiscoveredView,
    ErrorView,
> {
    if c.addresses.len() == 0 {
        Err(
            error(
                ErrorKind::Unreachable,
                "native commissioning: commissionable found but no address resolved"@,
            ),
        )
    } else {
        Ok(
            DiscoveredView::Hit {
                target: target_of(c, scope_id),
                label: "on-network("@ + c.addresses@[0].text@ + ")"@,
            },
        )
    }
}

/// What a search that may fail says.
pub open spec fn discovery_view(r: Result<Discovered, MatError>) -> Result<DiscoveredView, ErrorView> {
    match r {
        Ok(d) => Ok(d@),
        Err(e) => Err(e@),
    }
}

/// How long a device with a long discriminator is looked for, in milliseconds.
pub const DISCOVER_TIMEOUT_MS: u64 = 5_000;

/// Reads the answer to the lookup of a long discriminator.
pub fn discover_qr(long: u16, answer: Result<Option<String>, DnssdFailure>) -> (r: Result<
    Discovered,
    MatError,
>)
    ensures
        discovery_view(r) == found_qr(long, answer),
{
    match answer {
        Ok(first) => {
            let label = match first {
                Some(t) => "on-network(".to_owned().concat(&t).concat(")"),
                None => "on-network(disc ".to_owned().concat(&text::decimal(long as u64)).concat(
                    ")",
                ),
            };
            Ok(Discovered::Hit { target: CommissionTarget::Discriminator(long), label })
        },
        Err(e) => if e.class == DnssdClass::Timeout {
            Ok(Discovered::Miss)
        } else {
            Err(
                MatError::new(
                    ErrorKind::Unreachable,
                    "native commissioning: mdns resolve: ".to_owned().concat(&e.text),
                ),
            )
        },
    }
}

/// Reads the list of the devices that offer themselves, for a manual code.
pub fn discover_manual(
    short: u8,
    scope_id: u32,
    answer: Result<Vec<CommissionableInstance>, DnssdFailure>,
) -> (r: Result<Discovered, MatError>)
    ensures
        match answer {
            Err(e) => discovery_view(r) == Err::<DiscoveredView, ErrorView>(
                error(ErrorKind::Unreachable, "native commissioning: mdns browse: "@ + e.text@),
            ),
            Ok(list) => {
                ||| discovery_view(r) == Ok::<DiscoveredView, ErrorView>(DiscoveredView::Miss)
                    && forall|i: int|
                    0 <= i < list.len() ==> !matches_short(#[trigger] list@[i], short)
                ||| discovery_view(r) == Err::<DiscoveredView, ErrorView>(ambiguous_short(short))
                    && exists|i: int, j: int|
                    0 <= i < j < list.len() && matches_short(#[trigger] list@[i], short)
                        && matches_short(#[trigger] list@[j], short)
                ||| exists|k: int|
                    0 <= k < list.len() && discovery_view(r) == #[trigger] found_manual(
                        list@[k],
                        scope_id,
                    ) && forall|i: int|
                        0 <= i < list.len() ==> (matches_short(#[trigger] list@[i], short) <==> i
                            == k)
            },
        },
{
    let list = match answer {
        Ok(l) => l,
        Err(e) => {
            return Err(
                MatError::new(
                    ErrorKind::Unreachable,
                    "native commissioning: mdns browse: ".to_owned().concat(&e.text),
                ),
            );
        },
    };
    match pick_by_short_strict(&list, short) {
        Err(e) => Err(e),
        Ok(None) => Ok(Discovered::Miss),
        Ok(Some(k)) => {
            let c = &list[k];
            if c.addresses.len() == 0 {
                let r = Err(
                    MatError::fixed(
                        ErrorKind::Unreachable,
                        "native commissioning: commissionable found but no address resolved",
                    ),
                );
                assert(discovery_view(r) == found_manual(list@[k as int], scope_id));
                return r;
            }
            let a = &c.addresses[0];
            let port: u16 = match c.port {
                Some(p) => p,
                None => 5540,
            };
            let scope: u32 = if a.segments[0] & 0xffc0 == 0xfe80 {
                scope_id
            } else {
                0
            };
            let r = Ok(
                Discovered::Hit {
                    target: CommissionTarget::Addr { segments: a.segments, port, scope_id: scope },
                    label: "on-network(".to_owned().concat(&a.text).concat(")"),
                },
            );
            assert(discovery_view(r) == found_manual(list@[k as int], scope_id));
            r
        },
    }
}

/// Why a route failed, and whether the next one may be tried.
#[derive(Debug, PartialEq, Eq)]
pub struct RouteFail {
    pub err: MatError,
    pub dead_end: bool,
}

/// What a failed route says.
pub struct RouteFailView {
    pub err: ErrorView,
    pub dead_end: bool,
}

/// What the attempt of a route says.
pub open spec fn route_view(r: Result<(), RouteFail>) -> Result<(), RouteFailView> {
    match r {
        Ok(_) => Ok(()),
        Err(f) => Err(RouteFailView { err: f.err@, dead_end: f.dead_end }),
    }
}

/// A failure that ends the attempt.
pub open spec fn final_fail(e: ErrorView) -> Result<(), RouteFailView> {
    Err(RouteFailView { err: e, dead_end: false })
}

/// How a route went.
#[derive(Debug, PartialEq, Eq)]
pub enum RouteOutcome {
    /// The local socket could not be bound.
    BindFailed(String),
    Commissioned,
    Failed(CommissionFailure),
}

/// What the on-network route gives for an outcome. A device that vanished
/// before PASE is unreachable.
pub open spec fn on_network_result(o: RouteOutcome) -> Result<(), RouteFailView> {
    match o {
        RouteOutcome::BindFailed(e) => final_fail(
            error(ErrorKind::Other, "native commissioning: udp bind: "@ + e@),
        ),
        RouteOutcome::Commissioned => Ok(()),
        RouteOutcome::Failed(f) => Err(
            RouteFailView {
                err: if f.class is Discovery {
                    error(
                        ErrorKind::Unreachable,
                        "native commissioning: commissionable disappeared before PASE: "@ + f.text@,
                    )
                } else {
                    failed(f)
                },
                dead_end: dead_end(f.class),
            },
        ),
    }
}

/// What the BLE route gives for an outcome. A device that is not seen is
/// unreachable.
pub open spec fn ble_result(o: RouteOutcome) -> Result<(), RouteFailView> {
    match o {
        RouteOutcome::BindFailed(e) => final_fail(
            error(ErrorKind::Other, "native commissioning: udp bind: "@ + e@),
        ),
        RouteOutcome::Commissioned => Ok(()),
        RouteOutcome::Failed(f) => Err(
            RouteFailView {
                err: match f.class {
                    CommissionClass::Ble { step, detail } => if step@ == "scan"@ {
                        error(
                            ErrorKind::Unreachable,
                            "native commissioning: ble scan: "@ + detail@,
                        )
                    } else {
                        failed(f)
                    },
                    _ => failed(f),
                },
                dead_end: dead_end(f.class),
            },
        ),
    }
}

/// Why the BLE route cannot run, where it cannot.
pub open spec fn ble_blocked(long: Option<u16>, ble_feature: bool, has_dataset: bool) -> Option<ErrorView> {
    if long is None {
        Some(
            error(
                ErrorKind::Other,
                "native commissioning: ble route planned without a long discriminator (internal)"@,
            ),
        )
    } else if !ble_feature {
        Some(
            error(
                ErrorKind::Unreachable,
                "native commissioning: not found via mDNS; this build has no BLE support (feature \"ble\")"@,
            ),
        )
    } else if !has_dataset {
        Some(
            error(
                ErrorKind::Unreachable,
                "native commissioning: not found via mDNS and no --thread-dataset for the BLE path"@,
            ),
        )
    } else {
        None
    }
}

/// Says why the BLE route cannot run, where it cannot: no long discriminator,
/// a build without BLE, or no Thread dataset.
pub fn ble_precheck(long: Option<u16>, ble_feature: bool, has_dataset: bool) -> (r: Result<
    (),
    RouteFail,
>)
    ensures
        match ble_blocked(long, ble_feature, has_dataset) {
            Some(e) => route_view(r) == final_fail(e),
            None => r is Ok,
        },
{
    if long.is_none() {
        Err(
            RouteFail {
                err: MatError::fixed(
                    ErrorKind::Other,
                    "native commissioning: ble route planned without a long discriminator (internal)",
                ),
                dead_end: false,
            },
        )
    } else if !ble_feature {
        Err(
            RouteFail {
                err: MatError::fixed(
                    ErrorKind::Unreachable,
                    "native commissioning: not found via mDNS; this build has no BLE support (feature \"ble\")",
                ),
                dead_end: false,
            },
        )
    } else if !has_dataset {
        Err(
            RouteFail {
                err: MatError::fixed(
                    ErrorKind::Unreachable,
                    "native commissioning: not found via mDNS and no --thread-dataset for the BLE path",
                ),
                dead_end: false,
            },
        )
    } else {
        Ok(())
    }
}

/// What a route gives for an outcome.
pub open spec fn route_result(r: RouteView, o: RouteOutcome) -> Result<(), RouteFailView> {
    match r {
        RouteView::OnNetwork { .. } => on_network_result(o),
        RouteView::Ble => ble_result(o),
    }
}

/// Reads how a route went.
pub fn run_route(route: &Route, outcome: RouteOutcome) -> (r: Result<(), RouteFail>)
    ensures
        route_view(r) == route_result(route@, outcome),
{
    match outcome {
        RouteOutcome::BindFailed(e) => Err(
            RouteFail {
                err: MatError::new(
                    ErrorKind::Other,
                    "native commissioning: udp bind: ".to_owned().concat(&e),
                ),
                dead_end: false,
            },
        ),
        RouteOutcome::Commissioned => Ok(()),
        RouteOutcome::Failed(f) => {
            let dead_end = is_dead_end(&f.class);
            let err = match route {
                Route::OnNetwork { .. } => match &f.class {
                    CommissionClass::Discovery => MatError::new(
                        ErrorKind::Unreachable,
                        "native commissioning: commissionable disappeared before PASE: ".to_owned().concat(
                        &f.text),
                    ),
                    _ => commission_error(&f),
                },
                Route::Ble => match &f.class {
                    CommissionClass::Ble { step, detail } => if text::same(step, "scan") {
                        MatError::new(
                            ErrorKind::Unreachable,
                            "native commissioning: ble scan: ".to_owned().concat(detail),
                        )
                    } else {
                        commission_error(&f)
                    },
                    _ => commission_error(&f),
                },
            };
            Err(RouteFail { err, dead_end })
        },
    }
}

/// What the run of a plan does next.
#[derive(Debug, PartialEq, Eq)]
pub enum PlanAction {
    /// Try the route of this index.
    Run(usize),
    /// The run is over.
    Done(Result<(), MatError>),
}

/// What an action of the run says.
pub enum PlanView {
    Run(int),
    Done(Result<(), ErrorView>),
}

impl View for PlanAction {
    type V = PlanView;

    open spec fn view(&self) -> PlanView {
        match *self {
            PlanAction::Run(i) => PlanView::Run(i as int),
            PlanAction::Done(Ok(_)) => PlanView::Done(Ok(())),
            PlanAction::Done(Err(e)) => PlanView::Done(Err(e@)),
        }
    }
}

/// How far the run of a plan is: the failures of the routes tried so far, one
/// text for each.
#[verifier::ext_equal]
pub struct PlanState {
    pub routes: Seq<RouteView>,
    pub failures: Seq<Seq<char>>,
}

/// The error of a plan without routes.
pub open spec fn empty_plan() -> ErrorView {
    error(ErrorKind::Other, "native commissioning: empty route plan (internal)"@)
}

/// The first action of the run.
pub open spec fn plan_start(routes: Seq<RouteView>) -> PlanView {
    if routes.len() == 0 {
        PlanView::Done(Err(empty_plan()))
    } else {
        PlanView::Run(0)
    }
}

/// One step of the run: the next route is tried only after a dead end, and
/// only where there is one.
pub open spec fn plan_step(s: PlanState, o: Result<(), RouteFailView>) -> (PlanState, PlanView) {
    let i = s.failures.len() as int;
    match o {
        Ok(_) => (s, PlanView::Done(Ok(()))),
        Err(f) => {
            let failures = s.failures.push(s.routes[i].label() + ": "@ + shortened(f.err.detail));
            let next = PlanState { failures, ..s };
            if f.dead_end && i + 1 < s.routes.len() {
                (next, PlanView::Run(i + 1))
            } else {
                (next, PlanView::Done(Err(composed(failures, f.err))))
            }
        },
    }
}

/// The run of a plan.
pub struct PlanRun {
    pub routes: Vec<Route>,
    pub failures: Vec<String>,
}

impl View for PlanRun {
    type V = PlanState;

    open spec fn view(&self) -> PlanState {
        PlanState { routes: routes_view(self.routes@), failures: text::texts(self.failures@) }
    }
}

impl PlanRun {
    /// The route under way is one of the plan.
    pub open spec fn wf(self) -> bool {
        self.failures.len() < self.routes.len()
    }

    /// Begins with the first route.
    pub fn new(routes: Vec<Route>) -> (r: (PlanRun, PlanAction))
        ensures
            r.0@ == (PlanState { routes: routes_view(routes@), failures: Seq::empty() }),
            r.1@ == plan_start(routes_view(routes@)),
            r.0.wf() <==> routes.len() > 0,
    {
        let a = if routes.len() == 0 {
            PlanAction::Done(
                Err(
                    MatError::fixed(
                        ErrorKind::Other,
                        "native commissioning: empty route plan (internal)",
                    ),
                ),
            )
        } else {
            PlanAction::Run(0)
        };
        let run = PlanRun { routes, failures: Vec::new() };
        assert(run@.failures =~= Seq::empty());
        (run, a)
    }

    /// Takes how the route under way went and says what to do next.
    pub fn run_plan(&mut self, outcome: Result<(), RouteFail>) -> (a: PlanAction)
        requires
            old(self).wf(),
        ensures
            (final(self)@, a@) == plan_step(old(self)@, route_view(outcome)),
            a is Run ==> final(self).wf(),
            final(self).routes == old(self).routes,
    {
        match outcome {
            Ok(()) => PlanAction::Done(Ok(())),
            Err(f) => {
                let i: usize = self.failures.len();
                let line = self.routes[i].label().concat(": ").concat(&short_detail(&f.err.detail));
                let ghost before = text::texts(self.failures@);
                self.failures.push(line);
                assert(text::texts(self.failures@) =~= before.push(line@));
                if f.dead_end && i + 1 < self.routes.len() {
                    PlanAction::Run(i + 1)
                } else {
                    PlanAction::Done(Err(compose_failure(&self.failures, f.err)))
                }
            },
        }
    }
}

/// The actions of a run for the outcomes of its routes.
pub open spec fn plan_trace(s: PlanState, outcomes: Seq<Result<(), RouteFailView>>) -> Seq<PlanView>
    decreases outcomes.len(),
{
    if outcomes.len() == 0 {
        Seq::empty()
    } else {
        let (next, a) = plan_step(s, outcomes[0]);
        if a is Run {
            seq![a] + plan_trace(next, outcomes.skip(1))
        } else {
            seq![a]
        }
    }
}

/// A success or a failure that is no dead end is the last thing a run does:
/// no later route is tried.
pub proof fn law_run_stops_at_the_first_final_outcome(
    s: PlanState,
    outcomes: Seq<Result<(), RouteFailView>>,
)
    requires
        outcomes.len() > 0,
        outcomes[0] matches Err(f) ==> !f.dead_end,
    ensures
        plan_trace(s, outcomes).len() == 1,
        plan_trace(s, outcomes)[0] is Done,
        outcomes[0] matches Err(f) ==> (plan_trace(s, outcomes)[0] matches PlanView::Done(Err(e))
            && e.kind == f.err.kind),
{
}

/// A run of one route reports the failure of that route as it is.
pub proof fn law_single_route_is_verbatim(route: RouteView, f: RouteFailView)
    ensures
        plan_step(PlanState { routes: seq![route], failures: Seq::empty() }, Err(f)).1
            == PlanView::Done(Err(f.err)),
{
}

/// When a run ends in an error, the error has the kind of the last route
/// tried.
pub proof fn law_error_kind_is_the_last(s: PlanState, f: RouteFailView)
    ensures
        plan_step(s, Err(f)).1 matches PlanView::Done(Err(e)) ==> e.kind == f.err.kind,
{
}

/// Where the controller's epoch key of the fabric comes from.
#[derive(Debug, PartialEq, Eq)]
pub enum EpochChoice {
    /// The one in the store.
    Persisted(Vec<u8>),
    /// The well-known default, adopted into the store.
    Default,
}

/// What the search for the epoch key does next.
#[derive(Debug, PartialEq, Eq)]
pub enum EpochAction {
    /// Derive the operational key from this epoch key.
    Derive(Vec<u8>),
    /// Test whether the operational key is that of the default epoch key.
    TestDefault,
    /// Write the default epoch key into the store.
    AdoptDefault,
    Done(EpochChoice),
    Fail(MatError),
}

/// The error for a store that cannot be read for the epoch key.
pub open spec fn epoch_unreadable(e: Seq<char>) -> ErrorView {
    error(ErrorKind::StoreParse, "kvs ipk epoch: "@ + e)
}

/// The error for an epoch key that does not fit the operational key.
pub open spec fn epoch_inconsistent() -> ErrorView {
    error(
        ErrorKind::StoreParse,
        "kvs ipk epoch does not derive the stored operational key (inconsistent store)"@,
    )
}

/// The error for a fabric whose epoch key is not known.
pub open spec fn epoch_unknown() -> ErrorView {
    error(
        ErrorKind::StoreParse,
        "fabric IPK epoch unknown: not persisted and not the chip-tool default (rotated or foreign fabric)"@,
    )
}

/// Reads the epoch key in the store: one that is there is checked, one that is
/// not may be the default.
pub fn epoch_read(read: Result<Option<Vec<u8>>, String>) -> (a: EpochAction)
    ensures
        match read {
            Err(e) => a matches EpochAction::Fail(x) && x@ == epoch_unreadable(e@),
            Ok(Some(k)) => a == EpochAction::Derive(k),
            Ok(None) => a == EpochAction::TestDefault,
        },
{
    match read {
        Err(e) => EpochAction::Fail(
            MatError::new(ErrorKind::StoreParse, "kvs ipk epoch: ".to_owned().concat(&e)),
        ),
        Ok(Some(k)) => EpochAction::Derive(k),
        Ok(None) => EpochAction::TestDefault,
    }
}

/// Takes the key derived from the epoch key in the store: it must be the
/// operational key in use.
pub fn epoch_derived(epoch: Vec<u8>, derived: &Vec<u8>, operational: &Vec<u8>) -> (a: EpochAction)
    ensures
        if derived@ == operational@ {
            a == EpochAction::Done(EpochChoice::Persisted(epoch))
        } else {
            a matches EpochAction::Fail(x) && x@ == epoch_inconsistent()
        },
{
    if same_bytes(derived, operational) {
        EpochAction::Done(EpochChoice::Persisted(epoch))
    } else {
        EpochAction::Fail(
            MatError::fixed(
                ErrorKind::StoreParse,
                "kvs ipk epoch does not derive the stored operational key (inconsistent store)",
            ),
        )
    }
}

/// Takes whether the operational key is that of the default epoch key: only
/// then the default is written.
pub fn epoch_default_tested(is_default: bool) -> (a: EpochAction)
    ensures
        if is_default {
            a == EpochAction::AdoptDefault
        } else {
            a matches EpochAction::Fail(x) && x@ == epoch_unknown()
        },
{
    if is_default {
        EpochAction::AdoptDefault
    } else {
        EpochAction::Fail(
            MatError::fixed(
                ErrorKind::StoreParse,
                "fabric IPK epoch unknown: not persisted and not the chip-tool default (rotated or foreign fabric)",
            ),
        )
    }
}

/// Takes whether the default was written: it is used only where it is in the
/// store.
pub fn epoch_adopted(written: Result<(), String>) -> (a: EpochAction)
    ensures
        match written {
            Ok(_) => a == EpochAction::Done(EpochChoice::Default),
            Err(e) => a matches EpochAction::Fail(x) && x@ == error(
                ErrorKind::StoreParse,
                "kvs ipk epoch adopt write: "@ + e@,
            ),
        },
{
    match written {
        Ok(()) => EpochAction::Done(EpochChoice::Default),
        Err(e) => EpochAction::Fail(
            MatError::new(
                ErrorKind::StoreParse,
                "kvs ipk epoch adopt write: ".to_owned().concat(&e),
            ),
        ),
    }
}

/// What commissioning does next.
#[derive(Debug, PartialEq, Eq)]
pub enum CommissionAction {
    ResolveIface,
    ReadMaterials,
    IssueCredentials,
    ResolveEpoch,
    /// Search the network for the device.
    Discover,
    /// Run these routes.
    Routes(Vec<Route>),
    Fail(MatError),
}

/// What came back from an action of commissioning.
#[derive(Debug, PartialEq, Eq)]
pub enum CommissionEvent {
    Iface(Result<u32, String>),
    Materials(Result<(), String>),
    Credentials(Result<(), String>),
    Epoch(Result<(), MatError>),
    Discovered(Result<Discovered, MatError>),
}

/// What an action of commissioning says.
pub enum CommissionView {
    ResolveIface,
    ReadMaterials,
    IssueCredentials,
    ResolveEpoch,
    Discover,
    Routes(Seq<RouteView>),
    Fail(ErrorView),
}

impl View for CommissionAction {
    type V = CommissionView;

    open spec fn view(&self) -> CommissionView {
        match *self {
            CommissionAction::ResolveIface => CommissionView::ResolveIface,
            CommissionAction::ReadMaterials => CommissionView::ReadMaterials,
            CommissionAction::IssueCredentials => CommissionView::IssueCredentials,
            CommissionAction::ResolveEpoch => CommissionView::ResolveEpoch,
            CommissionAction::Discover => CommissionView::Discover,
            CommissionAction::Routes(r) => CommissionView::Routes(routes_view(r@)),
            CommissionAction::Fail(e) => CommissionView::Fail(e@),
        }
    }
}

/// The routes, or the failure to plan them.
pub open spec fn plan_action(r: Result<Seq<RouteView>, ErrorView>) -> CommissionView {
    match r {
        Ok(v) => CommissionView::Routes(v),
        Err(e) => CommissionView::Fail(e),
    }
}

/// What follows an event of commissioning. The network is searched only where
/// the route over BLE was not asked for.
pub open spec fn commission_step(
    iface: Seq<char>,
    code: Code,
    transport: Transport,
    ble_usable: bool,
    ev: CommissionEvent,
) -> CommissionView {
    match ev {
        CommissionEvent::Iface(Ok(_)) => CommissionView::ReadMaterials,
        CommissionEvent::Iface(Err(e)) => CommissionView::Fail(
            error(
                ErrorKind::Other,
                "native commissioning: resolve iface "@ + text::quoted_text(iface) + ": "@ + e@,
            ),
        ),
        CommissionEvent::Materials(Ok(_)) => CommissionView::IssueCredentials,
        CommissionEvent::Materials(Err(e)) => CommissionView::Fail(
            error(
                ErrorKind::StoreMissing,
                "native commissioning: read KVS credentials: "@ + e@
                    + " — run `mat fabric init`"@,
            ),
        ),
        CommissionEvent::Credentials(Ok(_)) => CommissionView::ResolveEpoch,
        CommissionEvent::Credentials(Err(e)) => CommissionView::Fail(
            error(ErrorKind::StoreParse, "native commissioning: self-issue NOC: "@ + e@),
        ),
        CommissionEvent::Epoch(Ok(_)) => if transport == Transport::Ble {
            plan_action(planned(code, transport, Discovered::NotConsulted, ble_usable))
        } else {
            CommissionView::Discover
        },
        CommissionEvent::Epoch(Err(e)) => CommissionView::Fail(e@),
        CommissionEvent::Discovered(Ok(d)) => plan_action(planned(code, transport, d, ble_usable)),
        CommissionEvent::Discovered(Err(e)) => CommissionView::Fail(e@),
    }
}

fn planned_action(code: &Code, transport: Transport, d: &Discovered, ble_usable: bool) -> (a:
    CommissionAction)
    ensures
        a@ == plan_action(planned(*code, transport, *d, ble_usable)),
{
    match plan_routes(code, transport, d, ble_usable) {
        Ok(routes) => CommissionAction::Routes(routes),
        Err(e) => CommissionAction::Fail(e),
    }
}

/// Takes what came back from an action of commissioning and says what follows.
///
/// It begins with the lookup of the interface, and ends in the routes to run
/// or in a failure.
pub fn commission(iface: &str, code: &Code, transport: Transport, ble_usable: bool, ev: CommissionEvent) -> (a:
    CommissionAction)
    ensures
        a@ == commission_step(iface@, *code, transport, ble_usable, ev),
{
    match ev {
        CommissionEvent::Iface(r) => match r {
            Ok(_) => CommissionAction::ReadMaterials,
            Err(e) => CommissionAction::Fail(
                MatError::new(
                    ErrorKind::Other,
                    "native commissioning: resolve iface ".to_owned().concat(&text::quote(iface)).concat(
                        ": ",
                    ).concat(&e),
                ),
            ),
        },
        CommissionEvent::Materials(r) => match r {
            Ok(_) => CommissionAction::IssueCredentials,
            Err(e) => CommissionAction::Fail(
                MatError::new(
                    ErrorKind::StoreMissing,
                    "native commissioning: read KVS credentials: ".to_owned().concat(&e).concat(
                        " — run `mat fabric init`",
                    ),
                ),
            ),
        },
        CommissionEvent::Credentials(r) => match r {
            Ok(_) => CommissionAction::ResolveEpoch,
            Err(e) => CommissionAction::Fail(
                MatError::new(
                    ErrorKind::StoreParse,
                    "native commissioning: self-issue NOC: ".to_owned().concat(&e),
                ),
            ),
        },
        CommissionEvent::Epoch(r) => match r {
            Ok(_) => if transport == Transport::Ble {
                planned_action(code, transport, &Discovered::NotConsulted, ble_usable)
            } else {
                CommissionAction::Discover
            },
            Err(e) => CommissionAction::Fail(e),
        },
        CommissionEvent::Discovered(r) => match r {
            Ok(d) => planned_action(code, transport, &d, ble_usable),
            Err(e) => CommissionAction::Fail(e),
        },
    }
}

/// The route over BLE alone never searches the network.
pub proof fn law_ble_never_searches(
    iface: Seq<char>,
    code: Code,
    ble_usable: bool,
    ev: CommissionEvent,
)
    ensures
        !(commission_step(iface, code, Transport::Ble, ble_usable, ev) is Discover),
{
}

/// What was found on the network is the first way to a device, under the label
/// that it was found with. The radio is a way if the code has the long number
/// and the transport allows it: behind the network where it can be used, and
/// alone where nothing was found.
pub proof fn law_plan_follows_what_was_found(
    code: Code,
    transport: Transport,
    target: CommissionTarget,
    label: String,
    ble_usable: bool,
)
    requires
        transport != Transport::Ble,
    ensures
        planned(code, transport, Discovered::Hit { target, label }, ble_usable) matches Ok(p)
            && p[0] == (RouteView::OnNetwork { target, label: label@ }) && p.len() == (if transport
            == Transport::Auto && code is Qr && ble_usable {
            2int
        } else {
            1
        }) && (p.len() == 2 ==> p[1] == RouteView::Ble),
        planned(code, transport, Discovered::Miss, ble_usable) matches Ok(p) ==> p == seq![
            RouteView::Ble,
        ] && code is Qr && transport == Transport::Auto,
        code is Qr && transport == Transport::Auto ==> planned(
            code,
            transport,
            Discovered::Miss,
            ble_usable,
        ) is Ok,
        planned(code, transport, Discovered::Miss, ble_usable) matches Err(e) ==> e.kind
            == ErrorKind::Unreachable,
        planned(code, transport, Discovered::NotConsulted, ble_usable) matches Err(e) && e.kind
            == ErrorKind::Other,
{
}

/// A code that begins with the mark of a payload is read as one, any other as a
/// manual code; the numbers are those that were read.
pub proof fn law_code_is_read_by_its_mark(
    s: Seq<char>,
    qr: Result<(u32, u16), String>,
    manual: Result<(u32, u8), String>,
)
    ensures
        parsed_code("MT:"@ + s, qr, manual) == match qr {
            Ok(q) => Ok::<Code, ErrorView>(Code::Qr { passcode: q.0, long: q.1 }),
            Err(e) => Err(error(ErrorKind::Other, "invalid QR payload: "@ + e@)),
        },
        !text::has_prefix(s, "MT:"@) ==> parsed_code(s, qr, manual) == match manual {
            Ok(m) => Ok::<Code, ErrorView>(Code::Manual { passcode: m.0, short: m.1 }),
            Err(e) => Err(error(ErrorKind::Other, "invalid manual code: "@ + e@)),
        },
{
    let all = "MT:"@ + s;
    assert(all.subrange(0, "MT:"@.len() as int) =~= "MT:"@);
}

/// What failed decides the kind of the error: a device that said no, one that
/// fell silent, a network that it could not join, and an answer that could not
/// be read are told apart.
pub proof fn law_commission_failures_are_told_apart(c: CommissionClass)
    ensures
        commission_kind(c) == ErrorKind::Timeout <==> (c is Timeout || c == CommissionClass::Pase(
            PaseClass::ExchangeTimeout,
        ) || c == CommissionClass::Case(CaseClass::ExchangeTimeout) || c
            == CommissionClass::Session(SessionClass::Timeout)),
        commission_kind(c) == ErrorKind::DeviceRejected <==> ((c matches CommissionClass::Pase(p)
            && (p == PaseClass::ConfirmMismatch || p == PaseClass::StatusReport)) || (
        c matches CommissionClass::Case(k) && (k == CaseClass::PeerStatus || k
            == CaseClass::Sigma2SignatureInvalid || k == CaseClass::EstablishmentFailed)) || c
            is Attestation || c is Noc || c is CommandStatus),
        commission_kind(c) == ErrorKind::Unreachable <==> c is NetworkConfig,
        commission_kind(c) == ErrorKind::ParseError <==> c is Malformed || c is Csr,
        c is Discovery || c is Ble || c is Other ==> commission_kind(c)
            == ErrorKind::CommissionFailed,
{
}

/// Another way is tried only where the device was not spoken to: no address
/// could be used, none answered, or it was gone.
pub proof fn law_dead_ends_are_before_an_answer(c: CommissionClass)
    ensures
        dead_end(c) <==> ((c matches CommissionClass::Timeout(s) && s@ == "no usable address"@) || c
            == CommissionClass::Pase(PaseClass::ExchangeTimeout) || c is Discovery),
{
}

/// A failed commissioning keeps its own words, and they come back when the
/// introduction is taken off.
pub proof fn law_failure_keeps_its_words(f: CommissionFailure, s: Seq<char>)
    ensures
        failed(f).kind == commission_kind(f.class),
        shortened(failed(f).detail) == f.text@,
        shortened("native commissioning: "@ + s) == s,
        !text::has_prefix(s, "native commissioning failed: "@) && !text::has_prefix(
            s,
            "native commissioning: "@,
        ) ==> shortened(s) == s,
{
    let long = "native commissioning failed: "@;
    let brief = "native commissioning: "@;
    reveal_strlit("native commissioning failed: ");
    reveal_strlit("native commissioning: ");
    assert((long + f.text@).subrange(0, long.len() as int) =~= long);
    assert((long + f.text@).skip(long.len() as int) =~= f.text@);
    let all = brief + s;
    assert(all.subrange(0, brief.len() as int) =~= brief);
    assert(all.skip(brief.len() as int) =~= s);
    assert(all[20] == ':');
    if text::has_prefix(all, long) {
        assert(all.subrange(0, long.len() as int)[20] == long[20]);
    }
}

/// Where more than one way failed the error tells of each, and has the kind of
/// the last.
pub proof fn law_every_failed_way_is_told(failures: Seq<Seq<char>>, last: ErrorView, i: int)
    requires
        0 <= i < failures.len(),
    ensures
        composed(failures, last).kind == last.kind,
        failures.len() == 1 ==> composed(failures, last) == last,
        failures.len() > 1 ==> text::occurs(composed(failures, last).detail, failures[i]),
{
    if failures.len() > 1 {
        let head = "native commissioning: all routes failed — "@;
        let tail = text::joined(failures, "; "@);
        text::law_joined_holds_each_part(failures, "; "@, i);
        let k = choose|k: int| #[trigger] text::occurs_at(tail, failures[i], k);
        let all = head + tail;
        let at: int = head.len() + k;
        assert(all.subrange(at, at + failures[i].len()) =~= tail.subrange(
            k,
            k + failures[i].len(),
        ));
        assert(text::occurs_at(all, failures[i], at));
    }
}

/// The short number of a device is the upper part of its long one.
pub proof fn law_short_number_is_the_upper_part(d: u32)
    requires
        d < 65_536,
    ensures
        short_of(d) == d / 256,
{
    assert((d >> 8) as u8 == d / 256) by (bit_vector)
        requires
            d < 65_536,
    ;
}

/// A device is reached at its first address, at its port or the usual one; the
/// interface matters for an address of the link alone, one that begins with the
/// ten bits of that kind.
pub proof fn law_device_is_reached_at_its_first_address(c: CommissionableInstance, scope_id: u32)
    requires
        c.addresses@.len() > 0,
    ensures
        found_manual(c, scope_id) matches Ok(DiscoveredView::Hit { target, label }) && (
        target matches CommissionTarget::Addr { segments, port, scope_id: s } && segments
            == c.addresses@[0].segments && (c.port matches Some(p) ==> port == p) && (c.port is None
            ==> port == 5540) && s == if 0xfe80 <= c.addresses@[0].segments@[0] <= 0xfebf {
            scope_id
        } else {
            0
        }) && text::occurs(label, c.addresses@[0].text@),
{
    let first: u16 = c.addresses@[0].segments@[0];
    assert(first & 0xffc0 == 0xfe80 <==> 0xfe80 <= first <= 0xfebf) by (bit_vector);
    let t = c.addresses@[0].text@;
    let label = "on-network("@ + t + ")"@;
    let k: int = "on-network("@.len() as int;
    assert(label.subrange(k, k + t.len()) =~= t);
    assert(text::occurs_at(label, t, k));
}

/// A device without an address is unreachable.
pub proof fn law_device_without_an_address_is_unreachable(
    c: CommissionableInstance,
    scope_id: u32,
)
    requires
        c.addresses@.len() == 0,
    ensures
        found_manual(c, scope_id) matches Err(e) && e.kind == ErrorKind::Unreachable,
{
}

/// A search by the long number finds the device of that number, or misses it
/// when its time is over; any other failure is an error.
pub proof fn law_search_finds_the_number(long: u16, a: Result<Option<String>, DnssdFailure>)
    ensures
        a is Ok ==> (found_qr(long, a) matches Ok(DiscoveredView::Hit { target, .. }) && target
            == CommissionTarget::Discriminator(long)),
        a matches Err(e) ==> (e.class == DnssdClass::Timeout ==> found_qr(long, a) == Ok::<
            DiscoveredView,
            ErrorView,
        >(DiscoveredView::Miss)),
        a matches Err(e) ==> (e.class != DnssdClass::Timeout ==> (found_qr(long, a) matches Err(f)
            && f.kind == ErrorKind::Unreachable)),
{
}

/// A way succeeds if and only if the device was taken in over it, and is a dead
/// end if and only if its failure is.
pub proof fn law_way_ends_as_its_outcome(r: RouteView, o: RouteOutcome)
    ensures
        route_result(r, o) is Ok <==> o is Commissioned,
        o is BindFailed ==> (route_result(r, o) matches Err(f) && !f.dead_end && f.err.kind
            == ErrorKind::Other),
        o matches RouteOutcome::Failed(x) ==> (route_result(r, o) matches Err(f) && f.dead_end
            == dead_end(x.class) && f.err.kind == (if (r is OnNetwork && x.class is Discovery) || (
        r is Ble && (x.class matches CommissionClass::Ble { step, .. } && step@ == "scan"@)) {
            ErrorKind::Unreachable
        } else {
            commission_kind(x.class)
        })),
{
}

/// The radio can be used if the long number, the feature and the dataset are
/// all there.
pub proof fn law_radio_needs_number_feature_and_dataset(
    long: Option<u16>,
    ble_feature: bool,
    has_dataset: bool,
)
    ensures
        ble_blocked(long, ble_feature, has_dataset) is None <==> long is Some && ble_feature
            && has_dataset,
{
}

/// The ways are tried in order: the next one after a dead end and none after
/// anything else.
pub proof fn law_ways_are_tried_in_order(s: PlanState, f: RouteFailView)
    ensures
        plan_start(s.routes) == (if s.routes.len() > 0 {
            PlanView::Run(0)
        } else {
            PlanView::Done(Err(empty_plan()))
        }),
        plan_step(s, Ok(())).1 == PlanView::Done(Ok(())),
        plan_step(s, Err(f)).1 is Run <==> f.dead_end && s.failures.len() + 1 < s.routes.len(),
        plan_step(s, Err(f)).1 matches PlanView::Run(k) ==> k == s.failures.len() + 1,
        plan_step(s, Err(f)).0.failures.len() == s.failures.len() + 1,
        plan_step(s, Err(f)).0.routes == s.routes,
{
}

/// A device is taken in step by step: the interface, the credentials of the
/// fabric, those of the device and the key are had before it is looked for, and
/// what was found becomes the plan.
pub proof fn law_commissioning_goes_step_by_step(
    iface: Seq<char>,
    code: Code,
    transport: Transport,
    ble_usable: bool,
    n: u32,
    d: Discovered,
)
    ensures
        commission_step(iface, code, transport, ble_usable, CommissionEvent::Iface(Ok(n)))
            is ReadMaterials,
        commission_step(iface, code, transport, ble_usable, CommissionEvent::Materials(Ok(())))
            is IssueCredentials,
        commission_step(iface, code, transport, ble_usable, CommissionEvent::Credentials(Ok(())))
            is ResolveEpoch,
        transport != Transport::Ble ==> commission_step(
            iface,
            code,
            transport,
            ble_usable,
            CommissionEvent::Epoch(Ok(())),
        ) is Discover,
        planned(code, transport, d, ble_usable) matches Ok(p) ==> commission_step(
            iface,
            code,
            transport,
            ble_usable,
            CommissionEvent::Discovered(Ok(d)),
        ) == CommissionView::Routes(p),
        planned(code, transport, d, ble_usable) matches Err(e) ==> commission_step(
            iface,
            code,
            transport,
            ble_usable,
            CommissionEvent::Discovered(Ok(d)),
        ) == CommissionView::Fail(e),
{
}

/// Any step that fails ends the commissioning, with the kind of what is amiss.
pub proof fn law_failed_step_ends_commissioning(
    iface: Seq<char>,
    code: Code,
    transport: Transport,
    ble_usable: bool,
    t: String,
    e: MatError,
)
    ensures
        commission_step(
            iface,
            code,
            transport,
            ble_usable,
            CommissionEvent::Iface(Err(t)),
        ) matches CommissionView::Fail(f) && f.kind == ErrorKind::Other,
        commission_step(
            iface,
            code,
            transport,
            ble_usable,
            CommissionEvent::Materials(Err(t)),
        ) matches CommissionView::Fail(f) && f.kind == ErrorKind::StoreMissing,
        commission_step(
            iface,
            code,
            transport,
            ble_usable,
            CommissionEvent::Credentials(Err(t)),
        ) matches CommissionView::Fail(f) && f.kind == ErrorKind::StoreParse,
        commission_step(iface, code, transport, ble_usable, CommissionEvent::Epoch(Err(e)))
            == CommissionView::Fail(e@),
        commission_step(iface, code, transport, ble_usable, CommissionEvent::Discovered(Err(e)))
            == CommissionView::Fail(e@),
{
}

/// A device has five seconds to be found.
pub proof fn law_search_has_its_time()
    ensures
        DISCOVER_TIMEOUT_MS == 5_000,
{
}

/// A key that is not known, or does not fit, is a failure of the store.
pub proof fn law_key_failures_are_of_the_store(e: Seq<char>, short: u8)
    ensures
        epoch_unreadable(e).kind == ErrorKind::StoreParse,
        epoch_inconsistent().kind == ErrorKind::StoreParse,
        epoch_unknown().kind == ErrorKind::StoreParse,
        ambiguous_short(short).kind == ErrorKind::CommissionFailed,
        empty_plan().kind == ErrorKind::Other,
        text::occurs(epoch_unreadable(e).detail, e),
{
    let d = epoch_unreadable(e).detail;
    let k: int = "kvs ipk epoch: "@.len() as int;
    assert(d.subrange(k, k + e.len()) =~= e);
    assert(text::occurs_at(d, e, k));
}

/// A way over the network has the label that it was found with, the radio its
/// own.
pub proof fn law_ways_have_their_labels(target: CommissionTarget, label: Seq<char>)
    ensures
        (RouteView::OnNetwork { target, label }).label() == label,
        RouteView::Ble.label() == "ble"@,
{
}

/// A device is the one that a short number stands for if it announces a number
/// whose upper part that is.
pub proof fn law_short_number_picks_its_device(c: CommissionableInstance, short: u8, d: u32)
    requires
        d < 65_536,
        c.discriminator == Some(d),
    ensures
        matches_short(c, short) <==> d / 256 == short,
{
    law_short_number_is_the_upper_part(d);
}

/// A radio that cannot be used for want of the feature or the dataset leaves
/// the device out of reach; one that was planned without the number is a mistake
/// of the plan.
pub proof fn law_unusable_radio_leaves_the_device_unreachable(
    long: Option<u16>,
    ble_feature: bool,
    has_dataset: bool,
)
    ensures
        ble_blocked(long, ble_feature, has_dataset) matches Some(e) ==> e.kind == if long is None {
            ErrorKind::Other
        } else {
            ErrorKind::Unreachable
        },
{
}

} // verus!
