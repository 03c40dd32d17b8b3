use xeonitte::transport::{
    select_transport, transport_from, transport_mode, StartupError, Transport, TransportMode,
    WEBHOOK_HOST, WEBHOOK_PORT,
};

#[test]
fn no_webhook_address_means_pull() {
    assert_eq!(transport_mode(None), TransportMode::Pull);
    assert_eq!(select_transport(None), Ok(Transport::Pull));
}

#[test]
fn a_webhook_address_means_push() {
    assert_eq!(transport_mode(Some("https://bot.example.org/hook")), TransportMode::Push);
    assert_eq!(
        select_transport(Some("https://bot.example.org/hook")),
        Ok(Transport::Push {
            url: "https://bot.example.org/hook".to_string(),
            host: [0, 0, 0, 0],
            port: 8443,
        })
    );
}

#[test]
fn the_mode_looks_at_presence_only() {
    assert_eq!(transport_mode(Some("")), TransportMode::Push);
    assert_eq!(transport_mode(Some("not a url")), TransportMode::Push);
}

#[test]
fn the_webhook_address_is_kept_in_normal_form() {
    assert_eq!(
        select_transport(Some("HTTPS://Bot.Example.org")),
        Ok(Transport::Push {
            url: "https://bot.example.org/".to_string(),
            host: WEBHOOK_HOST,
            port: WEBHOOK_PORT,
        })
    );
}

#[test]
fn a_malformed_webhook_address_fails_startup() {
    assert_eq!(select_transport(Some("not a url")), Err(StartupError::InvalidWebhookUrl));
    assert_eq!(select_transport(Some("")), Err(StartupError::InvalidWebhookUrl));
    assert_eq!(select_transport(Some("/relative/path")), Err(StartupError::InvalidWebhookUrl));
}

#[test]
fn the_push_endpoint_is_fixed() {
    assert_eq!(WEBHOOK_PORT, 8443);
    assert_eq!(WEBHOOK_HOST, [0, 0, 0, 0]);
}

#[test]
fn transport_from_covers_the_three_cases() {
    assert_eq!(transport_from(None), Ok(Transport::Pull));
    assert_eq!(transport_from(Some(None)), Err(StartupError::InvalidWebhookUrl));
    assert_eq!(
        transport_from(Some(Some("https://example.org/".to_string()))),
        Ok(Transport::Push { url: "https://example.org/".to_string(), host: [0, 0, 0, 0], port: 8443 })
    );
}

#[test]
fn selection_agrees_with_the_mode() {
    for config in [None, Some("https://example.org/a"), Some("http://127.0.0.1:9000/x?y=1")] {
        let mode = transport_mode(config);
        match select_transport(config) {
            Ok(Transport::Push { .. }) => assert_eq!(mode, TransportMode::Push),
            Ok(Transport::Pull) => assert_eq!(mode, TransportMode::Pull),
            Err(error) => panic!("unexpected startup failure: {:?}", error),
        }
    }
}
