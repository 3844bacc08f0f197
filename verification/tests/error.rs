use kubecove::error::{
    kube_error_kind, ApiStatus, ApiStatusCause, AppError, AppErrorKind, ErrorLink, IoErrorKind,
    KubeError, KubeErrorCause, KubeconfigError,
};

fn kube(message: &str, cause: KubeErrorCause, links: Vec<ErrorLink>) -> KubeError {
    KubeError {
        message: message.to_string(),
        cause,
        links,
    }
}

fn status(code: u16, reason: &str, message: &str) -> KubeError {
    kube(
        message,
        KubeErrorCause::Api(ApiStatus {
            code,
            reason: reason.into(),
            message: message.into(),
            details: None,
        }),
        vec![ErrorLink::Other],
    )
}

#[test]
fn classifies_status_without_reading_message() {
    for (code, reason, kind) in [
        (403, "Forbidden", AppErrorKind::Forbidden),
        (404, "NotFound", AppErrorKind::NotFound),
        (422, "Invalid", AppErrorKind::InvalidResource),
    ] {
        assert_eq!(
            AppError::from(status(code, reason, "untrusted description")).kind,
            kind
        );
    }
}

#[test]
fn error_text_cannot_turn_transport_failure_into_forbidden() {
    let error = kube(
        "cannot connect to forbidden.example:403",
        KubeErrorCause::Service,
        vec![
            ErrorLink::Other,
            ErrorLink::Io(IoErrorKind::ConnectionRefused),
        ],
    );
    assert_eq!(AppError::from(error).kind, AppErrorKind::Network);
}

#[test]
fn cancellation_survives_transport_wrapping_and_clone() {
    let error = AppError::from(kube(
        "service error",
        KubeErrorCause::Service,
        vec![ErrorLink::Other, ErrorLink::WorkspaceRequestCancelled],
    ));
    let cloned = error.clone();
    assert_eq!(cloned.kind, AppErrorKind::Cancelled);
    let source = cloned.source().unwrap();
    assert_eq!(source[0], ErrorLink::Other);
    assert_eq!(source[1], ErrorLink::WorkspaceRequestCancelled);
}

#[test]
fn reason_or_code_alone_classifies_a_status() {
    for (code, reason, kind) in [
        (403, "", AppErrorKind::Forbidden),
        (500, "Forbidden", AppErrorKind::Forbidden),
        (404, "", AppErrorKind::NotFound),
        (0, "NotFound", AppErrorKind::NotFound),
        (422, "", AppErrorKind::InvalidResource),
        (400, "Invalid", AppErrorKind::InvalidResource),
        (403, "NotFound", AppErrorKind::Forbidden),
        (500, "forbidden", AppErrorKind::Cluster),
        (409, "Conflict", AppErrorKind::Cluster),
    ] {
        assert_eq!(kube_error_kind(&status(code, reason, "")), kind, "{code} {reason}");
    }
}

#[test]
fn a_conflict_of_field_managers_comes_first() {
    let causes = vec![
        ApiStatusCause {
            reason: "FieldValueInvalid".into(),
        },
        ApiStatusCause {
            reason: "FieldManagerConflict".into(),
        },
    ];
    let error = kube(
        "conflict",
        KubeErrorCause::Api(ApiStatus {
            code: 403,
            reason: "Forbidden".into(),
            message: "conflict".into(),
            details: Some(causes),
        }),
        vec![ErrorLink::Other],
    );
    assert_eq!(kube_error_kind(&error), AppErrorKind::FieldManagerConflict);
}

#[test]
fn statuses_that_differ_in_messages_are_classified_alike() {
    for (code, reason) in [(403, ""), (0, "NotFound"), (409, "Conflict")] {
        assert_eq!(
            kube_error_kind(&status(code, reason, "Forbidden")),
            kube_error_kind(&status(code, reason, "404 NotFound"))
        );
    }
}

#[test]
fn causes_decide_where_the_chain_does_not() {
    for (cause, kind) in [
        (KubeErrorCause::InferConfig, AppErrorKind::Kubeconfig),
        (KubeErrorCause::InferKubeconfig, AppErrorKind::Kubeconfig),
        (KubeErrorCause::Auth, AppErrorKind::Kubeconfig),
        (
            KubeErrorCause::Discovery,
            AppErrorKind::ProviderDiscoveryUnavailable,
        ),
        (KubeErrorCause::SerdeError, AppErrorKind::Serialization),
        (KubeErrorCause::FromUtf8, AppErrorKind::Serialization),
        (KubeErrorCause::HyperError, AppErrorKind::Network),
        (KubeErrorCause::Service, AppErrorKind::Network),
        (KubeErrorCause::RustlsTls, AppErrorKind::Network),
        (KubeErrorCause::TlsRequired, AppErrorKind::Network),
        (KubeErrorCause::Other, AppErrorKind::Cluster),
    ] {
        let error = kube(
            "any",
            cause,
            vec![ErrorLink::Other, ErrorLink::Io(IoErrorKind::Other)],
        );
        assert_eq!(kube_error_kind(&error), kind);
    }
}

#[test]
fn every_lost_connection_is_a_network_failure() {
    for io in [
        IoErrorKind::ConnectionRefused,
        IoErrorKind::ConnectionReset,
        IoErrorKind::ConnectionAborted,
        IoErrorKind::NotConnected,
        IoErrorKind::TimedOut,
        IoErrorKind::AddrNotAvailable,
        IoErrorKind::NetworkUnreachable,
        IoErrorKind::HostUnreachable,
    ] {
        let error = kube("any", KubeErrorCause::Auth, vec![ErrorLink::Io(io)]);
        assert_eq!(kube_error_kind(&error), AppErrorKind::Network);
    }
}

#[test]
fn the_first_deciding_link_wins() {
    let lost = ErrorLink::Io(IoErrorKind::TimedOut);
    let cancelled = ErrorLink::WorkspaceRequestCancelled;
    assert_eq!(
        kube_error_kind(&kube("", KubeErrorCause::Other, vec![cancelled, lost])),
        AppErrorKind::Cancelled
    );
    assert_eq!(
        kube_error_kind(&kube("", KubeErrorCause::Other, vec![lost, cancelled])),
        AppErrorKind::Network
    );
}

#[test]
fn conversions_keep_the_message_and_the_chain() {
    let error = AppError::from(status(404, "NotFound", "pods \"a\" not found"));
    assert_eq!(error.display(), "pods \"a\" not found");
    assert_eq!(error.source().unwrap().len(), 1);
    let error = AppError::from(KubeconfigError {
        message: "no context".into(),
        links: vec![ErrorLink::Other],
    });
    assert_eq!(error.kind, AppErrorKind::Kubeconfig);
    assert_eq!(error.message, "no context");
    assert_eq!(error.source().unwrap().len(), 1);
}

#[test]
fn failures_are_built_and_shown() {
    let error = AppError::new("safe description", AppErrorKind::Network);
    assert_eq!(error.display(), "safe description");
    assert!(error.source().is_none());
    let error = error.with_source(vec![ErrorLink::Other]);
    assert_eq!(error.kind, AppErrorKind::Network);
    assert_eq!(error.source().unwrap().len(), 1);
    let cancelled = AppError::cancelled();
    assert_eq!(cancelled.message, "request cancelled");
    assert_eq!(cancelled.kind, AppErrorKind::Cancelled);
}

#[test]
fn kinds_have_distinct_stable_names() {
    let kinds = [
        (AppErrorKind::AdmissionDenied, "admissionDenied"),
        (AppErrorKind::ArgoApi, "argoApi"),
        (AppErrorKind::ArgoConnection, "argoConnection"),
        (AppErrorKind::ArgoInspection, "argoInspection"),
        (
            AppErrorKind::ArgoOperationUnavailable,
            "argoOperationUnavailable",
        ),
        (AppErrorKind::ArgoTunnel, "argoTunnel"),
        (AppErrorKind::ArgoTunnelForbidden, "argoTunnelForbidden"),
        (AppErrorKind::Cancelled, "cancelled"),
        (AppErrorKind::Cluster, "cluster"),
        (AppErrorKind::ConfirmationRequired, "confirmationRequired"),
        (AppErrorKind::CredentialUnavailable, "credentialUnavailable"),
        (AppErrorKind::FieldManagerConflict, "fieldManagerConflict"),
        (AppErrorKind::Forbidden, "forbidden"),
        (AppErrorKind::ImmutableField, "immutableField"),
        (AppErrorKind::Internal, "internal"),
        (AppErrorKind::InvalidResource, "invalidResource"),
        (AppErrorKind::Io, "io"),
        (AppErrorKind::Kubeconfig, "kubeconfig"),
        (
            AppErrorKind::LiveSessionTargetUnavailable,
            "liveSessionTargetUnavailable",
        ),
        (AppErrorKind::Logs, "logs"),
        (AppErrorKind::Network, "network"),
        (AppErrorKind::NotFound, "notFound"),
        (
            AppErrorKind::ProviderDiscoveryUnavailable,
            "providerDiscoveryUnavailable",
        ),
        (AppErrorKind::Serialization, "serialization"),
        (AppErrorKind::Session, "session"),
        (AppErrorKind::Transport, "transport"),
        (AppErrorKind::UnsupportedOperation, "unsupportedOperation"),
        (AppErrorKind::UsageMetrics, "usage_metrics"),
        (AppErrorKind::Validation, "validation"),
    ];
    for (kind, name) in kinds {
        assert_eq!(kind.as_str(), name);
        assert_eq!(kind.display(), name);
        for (other, _) in kinds {
            assert_eq!(kind.as_str() == other.as_str(), kind == other);
        }
    }
}
