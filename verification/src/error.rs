//! What can go wrong, and how a failure of the cluster is classified.

use crate::text::text_eq;
use vstd::prelude::*;
use vstd::std_specs::convert::{FromSpec, FromSpecImpl};
use vstd::string::*;

verus! {

/// Stable categories of failures, as the frontend knows them.
#[derive(Debug, Clone, Copy, PartialEq, Eq, Structural)]
pub enum AppErrorKind {
    AdmissionDenied,
    ArgoApi,
    ArgoConnection,
    ArgoInspection,
    ArgoOperationUnavailable,
    ArgoTunnel,
    ArgoTunnelForbidden,
    Cancelled,
    Cluster,
    ConfirmationRequired,
    CredentialUnavailable,
    FieldManagerConflict,
    Forbidden,
    ImmutableField,
    Internal,
    InvalidResource,
    Io,
    Kubeconfig,
    LiveSessionTargetUnavailable,
    Logs,
    Network,
    NotFound,
    ProviderDiscoveryUnavailable,
    Serialization,
    Session,
    Transport,
    UnsupportedOperation,
    UsageMetrics,
    Validation,
}

impl AppErrorKind {
    /// The name of the category at the frontend boundary.
    pub open spec fn name(self) -> Seq<char> {
        match self {
            AppErrorKind::AdmissionDenied => "admissionDenied"@,
            AppErrorKind::ArgoApi => "argoApi"@,
            AppErrorKind::ArgoConnection => "argoConnection"@,
            AppErrorKind::ArgoInspection => "argoInspection"@,
            AppErrorKind::ArgoOperationUnavailable => "argoOperationUnavailable"@,
            AppErrorKind::ArgoTunnel => "argoTunnel"@,
            AppErrorKind::ArgoTunnelForbidden => "argoTunnelForbidden"@,
            AppErrorKind::Cancelled => "cancelled"@,
            AppErrorKind::Cluster => "cluster"@,
            AppErrorKind::ConfirmationRequired => "confirmationRequired"@,
            AppErrorKind::CredentialUnavailable => "credentialUnavailable"@,
            AppErrorKind::FieldManagerConflict => "fieldManagerConflict"@,
            AppErrorKind::Forbidden => "forbidden"@,
            AppErrorKind::ImmutableField => "immutableField"@,
            AppErrorKind::Internal => "internal"@,
            AppErrorKind::InvalidResource => "invalidResource"@,
            AppErrorKind::Io => "io"@,
            AppErrorKind::Kubeconfig => "kubeconfig"@,
            AppErrorKind::LiveSessionTargetUnavailable => "liveSessionTargetUnavailable"@,
            AppErrorKind::Logs => "logs"@,
            AppErrorKind::Network => "network"@,
            AppErrorKind::NotFound => "notFound"@,
            AppErrorKind::ProviderDiscoveryUnavailable => "providerDiscoveryUnavailable"@,
            AppErrorKind::Serialization => "serialization"@,
            AppErrorKind::Session => "session"@,
            AppErrorKind::Transport => "transport"@,
            AppErrorKind::UnsupportedOperation => "unsupportedOperation"@,
            AppErrorKind::UsageMetrics => "usage_metrics"@,
            AppErrorKind::Validation => "validation"@,
        }
    }

    /// The name of the category at the frontend boundary.
    pub fn as_str(self) -> (name: &'static str)
        ensures
            name@ == self.name(),
    {
        match self {
            AppErrorKind::AdmissionDenied => "admissionDenied",
            AppErrorKind::ArgoApi => "argoApi",
            AppErrorKind::ArgoConnection => "argoConnection",
            AppErrorKind::ArgoInspection => "argoInspection",
            AppErrorKind::ArgoOperationUnavailable => "argoOperationUnavailable",
            AppErrorKind::ArgoTunnel => "argoTunnel",
            AppErrorKind::ArgoTunnelForbidden => "argoTunnelForbidden",
            AppErrorKind::Cancelled => "cancelled",
            AppErrorKind::Cluster => "cluster",
            AppErrorKind::ConfirmationRequired => "confirmationRequired",
            AppErrorKind::CredentialUnavailable => "credentialUnavailable",
            AppErrorKind::FieldManagerConflict => "fieldManagerConflict",
            AppErrorKind::Forbidden => "forbidden",
            AppErrorKind::ImmutableField => "immutableField",
            AppErrorKind::Internal => "internal",
            AppErrorKind::InvalidResource => "invalidResource",
            AppErrorKind::Io => "io",
            AppErrorKind::Kubeconfig => "kubeconfig",
            AppErrorKind::LiveSessionTargetUnavailable => "liveSessionTargetUnavailable",
            AppErrorKind::Logs => "logs",
            AppErrorKind::Network => "network",
            AppErrorKind::NotFound => "notFound",
            AppErrorKind::ProviderDiscoveryUnavailable => "providerDiscoveryUnavailable",
            AppErrorKind::Serialization => "serialization",
            AppErrorKind::Session => "session",
            AppErrorKind::Transport => "transport",
            AppErrorKind::UnsupportedOperation => "unsupportedOperation",
            AppErrorKind::UsageMetrics => "usage_metrics",
            AppErrorKind::Validation => "validation",
        }
    }

    /// The category as it is shown.
    pub fn display(&self) -> (text: String)
        ensures
            text@ == self.name(),
    {
        self.as_str().to_owned()
    }
}

proof fn lemma_kind_name_shape(kind: AppErrorKind)
    ensures
        ({
            let name = kind.name();
            match kind {
                AppErrorKind::AdmissionDenied => name.len() == 15 && name[0] == 'a',
                AppErrorKind::ArgoApi => name.len() == 7 && name[0] == 'a',
                AppErrorKind::ArgoConnection => name.len() == 14 && name[0] == 'a' && name[4] == 'C',
                AppErrorKind::ArgoInspection => name.len() == 14 && name[0] == 'a' && name[4] == 'I',
                AppErrorKind::ArgoOperationUnavailable => name.len() == 24 && name[0] == 'a',
                AppErrorKind::ArgoTunnel => name.len() == 10 && name[0] == 'a',
                AppErrorKind::ArgoTunnelForbidden => name.len() == 19 && name[0] == 'a',
                AppErrorKind::Cancelled => name.len() == 9 && name[0] == 'c',
                AppErrorKind::Cluster => name.len() == 7 && name[0] == 'c',
                AppErrorKind::ConfirmationRequired => name.len() == 20 && name[0] == 'c',
                AppErrorKind::CredentialUnavailable => name.len() == 21 && name[0] == 'c',
                AppErrorKind::FieldManagerConflict => name.len() == 20 && name[0] == 'f',
                AppErrorKind::Forbidden => name.len() == 9 && name[0] == 'f',
                AppErrorKind::ImmutableField => name.len() == 14 && name[0] == 'i' && name[4] == 't',
                AppErrorKind::Internal => name.len() == 8 && name[0] == 'i',
                AppErrorKind::InvalidResource => name.len() == 15 && name[0] == 'i',
                AppErrorKind::Io => name.len() == 2 && name[0] == 'i',
                AppErrorKind::Kubeconfig => name.len() == 10 && name[0] == 'k',
                AppErrorKind::LiveSessionTargetUnavailable => name.len() == 28 && name[0] == 'l',
                AppErrorKind::Logs => name.len() == 4 && name[0] == 'l',
                AppErrorKind::Network => name.len() == 7 && name[0] == 'n',
                AppErrorKind::NotFound => name.len() == 8 && name[0] == 'n',
                AppErrorKind::ProviderDiscoveryUnavailable => name.len() == 28 && name[0] == 'p',
                AppErrorKind::Serialization => name.len() == 13 && name[0] == 's',
                AppErrorKind::Session => name.len() == 7 && name[0] == 's',
                AppErrorKind::Transport => name.len() == 9 && name[0] == 't',
                AppErrorKind::UnsupportedOperation => name.len() == 20 && name[0] == 'u',
                AppErrorKind::UsageMetrics => name.len() == 13 && name[0] == 'u',
                AppErrorKind::Validation => name.len() == 10 && name[0] == 'v',
            }
        }),
{
    reveal_strlit("admissionDenied");
    reveal_strlit("argoApi");
    reveal_strlit("argoConnection");
    reveal_strlit("argoInspection");
    reveal_strlit("argoOperationUnavailable");
    reveal_strlit("argoTunnel");
    reveal_strlit("argoTunnelForbidden");
    reveal_strlit("cancelled");
    reveal_strlit("cluster");
    reveal_strlit("confirmationRequired");
    reveal_strlit("credentialUnavailable");
    reveal_strlit("fieldManagerConflict");
    reveal_strlit("forbidden");
    reveal_strlit("immutableField");
    reveal_strlit("internal");
    reveal_strlit("invalidResource");
    reveal_strlit("io");
    reveal_strlit("kubeconfig");
    reveal_strlit("liveSessionTargetUnavailable");
    reveal_strlit("logs");
    reveal_strlit("network");
    reveal_strlit("notFound");
    reveal_strlit("providerDiscoveryUnavailable");
    reveal_strlit("serialization");
    reveal_strlit("session");
    reveal_strlit("transport");
    reveal_strlit("unsupportedOperation");
    reveal_strlit("usage_metrics");
    reveal_strlit("validation");
}

/// Different categories have different names.
pub proof fn kind_names_are_distinct(a: AppErrorKind, b: AppErrorKind)
    requires
        a.name() == b.name(),
    ensures
        a == b,
{
    lemma_kind_name_shape(a);
    lemma_kind_name_shape(b);
}

/// The kinds of input and output errors that tell a lost or impossible connection,
/// and all others.
#[derive(Debug, Clone, Copy, PartialEq, Eq, Structural)]
pub enum IoErrorKind {
    ConnectionRefused,
    ConnectionReset,
    ConnectionAborted,
    NotConnected,
    TimedOut,
    AddrNotAvailable,
    NetworkUnreachable,
    HostUnreachable,
    Other,
}

/// One error of a chain of sources.
#[derive(Debug, Clone, Copy, PartialEq, Eq, Structural)]
pub enum ErrorLink {
    /// The request was cancelled in the workspace that made it.
    WorkspaceRequestCancelled,
    /// An input or output error.
    Io(IoErrorKind),
    /// Any other error.
    Other,
}

/// A failure as the application reports it.
///
/// The source, outermost error first, stays in the backend: it is no part of what the
/// frontend is told.
#[derive(Debug)]
pub struct AppError {
    pub message: String,
    pub kind: AppErrorKind,
    pub source: Option<Vec<ErrorLink>>,
}

/// What an [`AppError`] says.
#[verifier::ext_equal]
pub struct AppErrorView {
    pub message: Seq<char>,
    pub kind: AppErrorKind,
    pub source: Option<Seq<ErrorLink>>,
}

/// The failure of `kind` with `message` and no source.
pub open spec fn failure(message: Seq<char>, kind: AppErrorKind) -> AppErrorView {
    AppErrorView { message, kind, source: None }
}

impl View for AppError {
    type V = AppErrorView;

    open spec fn view(&self) -> AppErrorView {
        AppErrorView {
            message: self.message@,
            kind: self.kind,
            source: match self.source {
                Some(links) => Some(links@),
                None => None,
            },
        }
    }
}

impl Clone for AppError {
    fn clone(&self) -> (copy: AppError)
        ensures
            copy@ == self@,
    {
        let source: Option<Vec<ErrorLink>> = match &self.source {
            Some(links) => {
                let copy: Vec<ErrorLink> = links.clone();
                assert(copy@ =~= links@);
                Some(copy)
            },
            None => None,
        };
        AppError { message: self.message.clone(), kind: self.kind, source }
    }
}

impl AppError {
    /// A failure without a source.
    pub fn new(message: &str, kind: AppErrorKind) -> (error: AppError)
        ensures
            error@ == failure(message@, kind),
    {
        AppError { message: message.to_owned(), kind, source: None }
    }

    /// The failure with `source` as the chain of errors behind it.
    #[must_use]
    pub fn with_source(self, source: Vec<ErrorLink>) -> (error: AppError)
        ensures
            error@ == (AppErrorView { source: Some(source@), ..self@ }),
    {
        AppError { message: self.message, kind: self.kind, source: Some(source) }
    }

    /// The failure of a request that was cancelled.
    pub fn cancelled() -> (error: AppError)
        ensures
            error@ == failure("request cancelled"@, AppErrorKind::Cancelled),
    {
        AppError::new("request cancelled", AppErrorKind::Cancelled)
    }

    /// The failure as it is shown: its message.
    pub fn display(&self) -> (text: String)
        ensures
            text@ == self@.message,
    {
        self.message.clone()
    }

    /// The chain of errors behind the failure, outermost first.
    pub fn source(&self) -> (source: Option<&Vec<ErrorLink>>)
        ensures
            self@.source == (match source {
                Some(links) => Some(links@),
                None => None,
            }),
    {
        self.source.as_ref()
    }
}

/// One cause in the details of a status of the API server.
#[derive(Debug)]
pub struct ApiStatusCause {
    pub reason: String,
}

/// A status of the API server that reports a failure.
#[derive(Debug)]
pub struct ApiStatus {
    pub code: u16,
    pub reason: String,
    pub message: String,
    pub details: Option<Vec<ApiStatusCause>>,
}

/// What kind of failure a Kubernetes client met.
#[derive(Debug)]
pub enum KubeErrorCause {
    Api(ApiStatus),
    InferConfig,
    InferKubeconfig,
    Auth,
    Discovery,
    SerdeError,
    FromUtf8,
    HyperError,
    Service,
    RustlsTls,
    TlsRequired,
    Other,
}

/// A failure of a Kubernetes client: its text, its kind, and the chain of errors that
/// starts with it.
#[derive(Debug)]
pub struct KubeError {
    pub message: String,
    pub cause: KubeErrorCause,
    pub links: Vec<ErrorLink>,
}

/// A kubeconfig that could not be read: its text, and the chain of errors that starts
/// with it.
#[derive(Debug)]
pub struct KubeconfigError {
    pub message: String,
    pub links: Vec<ErrorLink>,
}

/// What one error of a chain decides by itself.
pub open spec fn link_kind(link: ErrorLink) -> Option<AppErrorKind> {
    match link {
        ErrorLink::WorkspaceRequestCancelled => Some(AppErrorKind::Cancelled),
        ErrorLink::Io(IoErrorKind::Other) => None,
        ErrorLink::Io(_) => Some(AppErrorKind::Network),
        ErrorLink::Other => None,
    }
}

/// What a chain of errors decides: what its first error that decides anything does.
pub open spec fn chain_kind(links: Seq<ErrorLink>) -> Option<AppErrorKind>
    decreases links.len(),
{
    if links.len() == 0 {
        None
    } else if link_kind(links.first()) is Some {
        link_kind(links.first())
    } else {
        chain_kind(links.drop_first())
    }
}

/// Whether the details of a status name a conflict of field managers.
pub open spec fn has_manager_conflict(details: Option<Vec<ApiStatusCause>>) -> bool {
    details matches Some(causes) && exists|i: int|
        0 <= i < causes@.len() && (#[trigger] causes@[i]).reason@ == "FieldManagerConflict"@
}

/// The kind of failure that a status of the API server reports.
pub open spec fn api_status_kind(status: ApiStatus) -> AppErrorKind {
    if has_manager_conflict(status.details) {
        AppErrorKind::FieldManagerConflict
    } else if status.code == 403 || status.reason@ == "Forbidden"@ {
        AppErrorKind::Forbidden
    } else if status.code == 404 || status.reason@ == "NotFound"@ {
        AppErrorKind::NotFound
    } else if status.code == 422 || status.reason@ == "Invalid"@ {
        AppErrorKind::InvalidResource
    } else {
        AppErrorKind::Cluster
    }
}

/// The kind of failure of a client, where its chain of errors decides nothing.
pub open spec fn cause_kind(cause: KubeErrorCause) -> AppErrorKind {
    match cause {
        KubeErrorCause::Api(status) => api_status_kind(status),
        KubeErrorCause::InferConfig | KubeErrorCause::InferKubeconfig | KubeErrorCause::Auth =>
            AppErrorKind::Kubeconfig,
        KubeErrorCause::Discovery => AppErrorKind::ProviderDiscoveryUnavailable,
        KubeErrorCause::SerdeError | KubeErrorCause::FromUtf8 => AppErrorKind::Serialization,
        KubeErrorCause::HyperError
        | KubeErrorCause::Service
        | KubeErrorCause::RustlsTls
        | KubeErrorCause::TlsRequired => AppErrorKind::Network,
        KubeErrorCause::Other => AppErrorKind::Cluster,
    }
}

/// The kind of failure of a client.
pub open spec fn client_error_kind(error: KubeError) -> AppErrorKind {
    match chain_kind(error.links@) {
        Some(kind) => kind,
        None => cause_kind(error.cause),
    }
}

/// A failure of a client as the application reports it.
pub open spec fn client_failure(error: KubeError) -> AppErrorView {
    AppErrorView {
        message: error.message@,
        kind: client_error_kind(error),
        source: Some(error.links@),
    }
}

fn kind_of_link(link: ErrorLink) -> (kind: Option<AppErrorKind>)
    ensures
        kind == link_kind(link),
{
    match link {
        ErrorLink::WorkspaceRequestCancelled => Some(AppErrorKind::Cancelled),
        ErrorLink::Io(IoErrorKind::Other) => None,
        ErrorLink::Io(_) => Some(AppErrorKind::Network),
        ErrorLink::Other => None,
    }
}

/// Classifies a failure of a client by the types of its errors, never by the text of
/// a remote message.
pub fn kube_error_kind(error: &KubeError) -> (kind: AppErrorKind)
    ensures
        kind == client_error_kind(*error),
{
    let links: &Vec<ErrorLink> = &error.links;
    let mut i: usize = 0;
    assert(links@.skip(0) =~= links@);
    while i < links.len()
        invariant
            links == error.links,
            i <= links@.len(),
            chain_kind(links@) == chain_kind(links@.skip(i as int)),
        decreases links@.len() - i,
    {
        assert(links@.skip(i as int).drop_first() =~= links@.skip(i + 1));
        match kind_of_link(links[i]) {
            Some(kind) => {
                return kind;
            },
            None => {},
        }
        i = i + 1;
    }
    match &error.cause {
        KubeErrorCause::Api(status) => status_kind(status),
        KubeErrorCause::InferConfig | KubeErrorCause::InferKubeconfig | KubeErrorCause::Auth =>
            AppErrorKind::Kubeconfig,
        KubeErrorCause::Discovery => AppErrorKind::ProviderDiscoveryUnavailable,
        KubeErrorCause::SerdeError | KubeErrorCause::FromUtf8 => AppErrorKind::Serialization,
        KubeErrorCause::HyperError
        | KubeErrorCause::Service
        | KubeErrorCause::RustlsTls
        | KubeErrorCause::TlsRequired => AppErrorKind::Network,
        KubeErrorCause::Other => AppErrorKind::Cluster,
    }
}

fn manager_conflict(causes: &Vec<ApiStatusCause>) -> (found: bool)
    ensures
        found == exists|i: int|
            0 <= i < causes@.len() && (#[trigger] causes@[i]).reason@ == "FieldManagerConflict"@,
{
    let mut i: usize = 0;
    while i < causes.len()
        invariant
            i <= causes@.len(),
            forall|j: int|
                0 <= j < i ==> (#[trigger] causes@[j]).reason@ != "FieldManagerConflict"@,
        decreases causes@.len() - i,
    {
        if text_eq(causes[i].reason.as_str(), "FieldManagerConflict") {
            return true;
        }
        i = i + 1;
    }
    false
}

/// The kind of failure that a status of the API server reports.
pub fn status_kind(status: &ApiStatus) -> (kind: AppErrorKind)
    ensures
        kind == api_status_kind(*status),
{
    match &status.details {
        Some(causes) => {
            if manager_conflict(causes) {
                return AppErrorKind::FieldManagerConflict;
            }
        },
        None => {},
    }
    if status.code == 403 || text_eq(status.reason.as_str(), "Forbidden") {
        return AppErrorKind::Forbidden;
    }
    if status.code == 404 || text_eq(status.reason.as_str(), "NotFound") {
        return AppErrorKind::NotFound;
    }
    if status.code == 422 || text_eq(status.reason.as_str(), "Invalid") {
        return AppErrorKind::InvalidResource;
    }
    AppErrorKind::Cluster
}

impl From<KubeError> for AppError {
    fn from(error: KubeError) -> (converted: AppError) {
        let kind: AppErrorKind = kube_error_kind(&error);
        AppError { message: error.message, kind, source: Some(error.links) }
    }
}

impl FromSpecImpl<KubeError> for AppError {
    open spec fn obeys_from_spec() -> bool {
        true
    }

    open spec fn from_spec(error: KubeError) -> AppError {
        AppError {
            message: error.message,
            kind: client_error_kind(error),
            source: Some(error.links),
        }
    }
}

impl From<KubeconfigError> for AppError {
    fn from(error: KubeconfigError) -> (converted: AppError) {
        AppError {
            message: error.message,
            kind: AppErrorKind::Kubeconfig,
            source: Some(error.links),
        }
    }
}

impl FromSpecImpl<KubeconfigError> for AppError {
    open spec fn obeys_from_spec() -> bool {
        true
    }

    open spec fn from_spec(error: KubeconfigError) -> AppError {
        AppError {
            message: error.message,
            kind: AppErrorKind::Kubeconfig,
            source: Some(error.links),
        }
    }
}

/// The reasons of the causes in the details of a status.
pub open spec fn cause_reasons(details: Option<Vec<ApiStatusCause>>) -> Option<Seq<Seq<char>>> {
    match details {
        Some(causes) => Some(causes@.map_values(|cause: ApiStatusCause| cause.reason@)),
        None => None,
    }
}

/// Whether two failures of a client differ at most in the messages they carry: their
/// chains of errors, their kinds, and the code and the reasons of a status are the same.
pub open spec fn same_but_for_messages(a: KubeError, b: KubeError) -> bool {
    &&& a.links@ == b.links@
    &&& match (a.cause, b.cause) {
        (KubeErrorCause::Api(x), KubeErrorCause::Api(y)) => x.code == y.code && x.reason@
            == y.reason@ && cause_reasons(x.details) == cause_reasons(y.details),
        (x, y) => x == y,
    }
}

proof fn lemma_conflict_by_reasons(details: Option<Vec<ApiStatusCause>>)
    ensures
        has_manager_conflict(details) == (cause_reasons(details) matches Some(reasons)
            && reasons.contains("FieldManagerConflict"@)),
{
    if let Some(causes) = details {
        let reasons = causes@.map_values(|cause: ApiStatusCause| cause.reason@);
        if has_manager_conflict(details) {
            let i = choose|i: int|
                0 <= i < causes@.len() && (#[trigger] causes@[i]).reason@
                    == "FieldManagerConflict"@;
            assert(reasons[i] == "FieldManagerConflict"@);
        }
        if reasons.contains("FieldManagerConflict"@) {
            let i = reasons.index_of("FieldManagerConflict"@);
            assert(causes@[i].reason@ == "FieldManagerConflict"@);
        }
    }
}

/// No text of a message changes how a failure is classified.
pub proof fn messages_do_not_classify(a: KubeError, b: KubeError)
    requires
        same_but_for_messages(a, b),
    ensures
        client_error_kind(a) == client_error_kind(b),
{
    if let (KubeErrorCause::Api(x), KubeErrorCause::Api(y)) = (a.cause, b.cause) {
        lemma_conflict_by_reasons(x.details);
        lemma_conflict_by_reasons(y.details);
    }
}

/// A chain of errors in which a cancellation comes before any lost connection is
/// classified as a cancellation, whatever wraps it.
pub proof fn cancellation_survives_wrapping(error: KubeError, at: int)
    requires
        0 <= at < error.links@.len(),
        error.links@[at] == ErrorLink::WorkspaceRequestCancelled,
        forall|i: int| 0 <= i < at ==> link_kind(#[trigger] error.links@[i]) is None,
    ensures
        client_error_kind(error) == AppErrorKind::Cancelled,
{
    lemma_first_deciding_link(error.links@, at);
}

proof fn lemma_first_deciding_link(links: Seq<ErrorLink>, at: int)
    requires
        0 <= at < links.len(),
        link_kind(links[at]) is Some,
        forall|i: int| 0 <= i < at ==> link_kind(#[trigger] links[i]) is None,
    ensures
        chain_kind(links) == link_kind(links[at]),
    decreases at,
{
    if at > 0 {
        assert(link_kind(links[0]) is None);
        let rest = links.drop_first();
        assert forall|i: int| 0 <= i < at - 1 implies link_kind(#[trigger] rest[i]) is None by {
            assert(rest[i] == links[i + 1]);
        }
        lemma_first_deciding_link(rest, at - 1);
    }
}

/// A failure is forbidden only where the API server reports it so: no transport
/// failure is.
pub proof fn only_the_api_server_forbids(error: KubeError)
    requires
        client_error_kind(error) == AppErrorKind::Forbidden,
    ensures
        error.cause matches KubeErrorCause::Api(status) && (status.code == 403 || status.reason@
            == "Forbidden"@),
{
    lemma_chain_kinds(error.links@);
}

proof fn lemma_chain_kinds(links: Seq<ErrorLink>)
    ensures
        chain_kind(links) matches Some(kind) ==> kind == AppErrorKind::Cancelled || kind
            == AppErrorKind::Network,
    decreases links.len(),
{
    if links.len() > 0 {
        lemma_chain_kinds(links.drop_first());
    }
}

/// Whether an error of a chain says nothing of how a failure is classified.
pub open spec fn says_nothing(link: ErrorLink) -> bool {
    link == ErrorLink::Other || link == ErrorLink::Io(IoErrorKind::Other)
}

/// A chain of errors in which a lost or impossible connection comes first is classified
/// as a failure of the network, whatever wraps it and whatever lies behind it.
pub proof fn a_lost_connection_is_a_network_failure(error: KubeError, at: int, lost: IoErrorKind)
    requires
        0 <= at < error.links@.len(),
        error.links@[at] == ErrorLink::Io(lost),
        lost != IoErrorKind::Other,
        forall|i: int| 0 <= i < at ==> says_nothing(#[trigger] error.links@[i]),
    ensures
        client_error_kind(error) == AppErrorKind::Network,
{
    assert forall|i: int| 0 <= i < at implies link_kind(#[trigger] error.links@[i]) is None by {
        assert(says_nothing(error.links@[i]));
    }
    lemma_first_deciding_link(error.links@, at);
}

/// A chain of errors in which a cancellation comes first is classified as a cancellation,
/// whatever the failure is otherwise.
pub proof fn a_cancellation_that_comes_first_decides(error: KubeError, at: int)
    requires
        0 <= at < error.links@.len(),
        error.links@[at] == ErrorLink::WorkspaceRequestCancelled,
        forall|i: int| 0 <= i < at ==> says_nothing(#[trigger] error.links@[i]),
    ensures
        client_error_kind(error) == AppErrorKind::Cancelled,
{
    assert forall|i: int| 0 <= i < at implies link_kind(#[trigger] error.links@[i]) is None by {
        assert(says_nothing(error.links@[i]));
    }
    cancellation_survives_wrapping(error, at);
}

proof fn lemma_quiet_chain(links: Seq<ErrorLink>)
    requires
        forall|i: int| 0 <= i < links.len() ==> says_nothing(#[trigger] links[i]),
    ensures
        chain_kind(links) is None,
    decreases links.len(),
{
    if links.len() > 0 {
        assert(says_nothing(links[0]));
        let rest = links.drop_first();
        assert forall|i: int| 0 <= i < rest.len() implies says_nothing(#[trigger] rest[i]) by {
            assert(rest[i] == links[i + 1]);
        }
        lemma_quiet_chain(rest);
    }
}

/// A status of the API server is classified by a conflict of field managers among its
/// causes first, and otherwise by its code or its reason, either of which is enough: a
/// refusal before a missing object, and that before an invalid one.
pub proof fn a_status_is_classified_by_its_code_or_reason(error: KubeError, status: ApiStatus)
    requires
        error.cause == KubeErrorCause::Api(status),
        forall|i: int| 0 <= i < error.links@.len() ==> says_nothing(#[trigger] error.links@[i]),
    ensures
        ({
            let conflict = status.details matches Some(causes) && exists|i: int|
                0 <= i < causes@.len() && (#[trigger] causes@[i]).reason@ == "FieldManagerConflict"@;
            let refused = status.code == 403 || status.reason@ == "Forbidden"@;
            let missing = status.code == 404 || status.reason@ == "NotFound"@;
            let invalid = status.code == 422 || status.reason@ == "Invalid"@;
            let kind = client_error_kind(error);
            &&& kind == AppErrorKind::FieldManagerConflict <==> conflict
            &&& kind == AppErrorKind::Forbidden <==> !conflict && refused
            &&& kind == AppErrorKind::NotFound <==> !conflict && !refused && missing
            &&& kind == AppErrorKind::InvalidResource <==> !conflict && !refused && !missing
                && invalid
            &&& kind == AppErrorKind::Cluster <==> !conflict && !refused && !missing && !invalid
        }),
{
    lemma_quiet_chain(error.links@);
}

/// Where neither the chain of errors nor a status decides, the type of the failure does.
pub proof fn other_failures_are_classified_by_their_type(error: KubeError)
    requires
        !(error.cause is Api),
        forall|i: int| 0 <= i < error.links@.len() ==> says_nothing(#[trigger] error.links@[i]),
    ensures
        ({
            let kind = client_error_kind(error);
            let cause = error.cause;
            &&& kind == AppErrorKind::Kubeconfig <==> cause is InferConfig || cause is InferKubeconfig
                || cause is Auth
            &&& kind == AppErrorKind::ProviderDiscoveryUnavailable <==> cause is Discovery
            &&& kind == AppErrorKind::Serialization <==> cause is SerdeError || cause is FromUtf8
            &&& kind == AppErrorKind::Network <==> cause is HyperError || cause is Service
                || cause is RustlsTls || cause is TlsRequired
            &&& kind == AppErrorKind::Cluster <==> cause is Other
        }),
{
    lemma_quiet_chain(error.links@);
}

/// A failure of a client is reported with its own text and with the chain of errors behind
/// it; what the application reports by itself has no source.
pub proof fn a_reported_failure_keeps_its_text(
    error: KubeError,
    message: Seq<char>,
    kind: AppErrorKind,
)
    ensures
        client_failure(error).message == error.message@,
        client_failure(error).kind == client_error_kind(error),
        client_failure(error).source == Some(error.links@),
        failure(message, kind).message == message,
        failure(message, kind).kind == kind,
        failure(message, kind).source is None,
{
}

/// A kubeconfig that could not be read is reported as such, with its own text and with the
/// chain of errors behind it.
pub proof fn a_kubeconfig_failure_keeps_its_text(error: KubeconfigError)
    ensures
        ({
            let reported = <AppError as FromSpec<KubeconfigError>>::from_spec(error);
            &&& reported.kind == AppErrorKind::Kubeconfig
            &&& reported.message@ == error.message@
            &&& reported@.source == Some(error.links@)
        }),
{
}

} // verus!
