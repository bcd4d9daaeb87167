use interactive_credential::extract_auth_code;
use interactive_credential::flow::{
    ok_response_bytes, is_wsl, ACCEPT_RETRY_MILLIS, AUTH_TIMEOUT_NANOS, READ_TIMEOUT_SECS,
    REMINDER_INTERVAL_NANOS,
};
use interactive_credential::{
    AcceptOutcome, AuthFlow, FlowAction, FlowEvent, LaunchStage, Outcome, Phase, Platform,
    LOCAL_SERVER_PORT,
};

const PAGE: &str = "<!DOCTYPE html>\n<html><head><title>Auth Complete</title></head>\n<body><p>Authentication complete. You may close this tab.</p></body>\n</html>";

fn expected_response() -> Vec<u8> {
    format!(
        "HTTP/1.1 200 OK\r\nContent-Type: text/html\r\nContent-Length: {}\r\n\r\n{}",
        PAGE.len(),
        PAGE
    )
    .into_bytes()
}

fn strings(v: &[&str]) -> Vec<String> {
    v.iter().map(|s| s.to_string()).collect()
}

#[test]
fn test_extract_code_param() {
    let url = "GET /?code=abc123&state=xyz";
    assert_eq!(extract_auth_code(url).unwrap(), "abc123");
}

#[test]
fn test_extract_code_at_end() {
    let url = "GET /?state=xyz&code=abc123";
    assert_eq!(extract_auth_code(url).unwrap(), "abc123");
}

#[test]
fn test_extract_code_missing() {
    let url = "GET /?state=only";
    assert!(extract_auth_code(url).is_none());
}

#[test]
fn extract_code_takes_last_occurrence() {
    assert_eq!(extract_auth_code("GET /?code=first&code=second&x=1").unwrap(), "second");
}

#[test]
fn extract_code_needs_a_parameter_named_code() {
    assert!(extract_auth_code("GET /?session_code=s1&state=z").is_none());
    assert!(extract_auth_code("GET /?error=access_denied&error_subcode=cancel&state=xyz").is_none());
    assert_eq!(extract_auth_code("GET /?error_subcode=x&code=c9").unwrap(), "c9");
    assert_eq!(extract_auth_code("code=first").unwrap(), "first");
}

#[test]
fn extract_code_empty_values() {
    assert_eq!(extract_auth_code("GET /?code=&state=x").unwrap(), "");
    assert_eq!(extract_auth_code("code=").unwrap(), "");
    assert!(extract_auth_code("").is_none());
    assert!(extract_auth_code("cod=").is_none());
}

#[test]
fn extract_code_ends_with_the_request_target() {
    let request = "GET /?code=0.AX4Ä-q HTTP/1.1\nHost: localhost:47828";
    assert_eq!(extract_auth_code(request).unwrap(), "0.AX4Ä-q");
    assert_eq!(extract_auth_code("GET /?state=xyz&code=abc123 HTTP/1.1").unwrap(), "abc123");
    assert_eq!(extract_auth_code("/?code=abc#frag").unwrap(), "abc");
    assert_eq!(extract_auth_code("/?code=abc\r\n").unwrap(), "abc");
    assert_eq!(extract_auth_code("/?code=abc\nX").unwrap(), "abc");
}

#[test]
fn wsl_detection_is_case_insensitive() {
    assert!(is_wsl("Linux version 5.15.90.1-microsoft-standard-WSL2"));
    assert!(is_wsl("Linux version 4.4.0-19041-MICROSOFT (Microsoft@Microsoft.com)"));
    assert!(is_wsl("MicroSoft"));
    assert!(!is_wsl("Linux version 6.1.0-18-amd64 (debian-kernel@lists.debian.org)"));
    assert!(!is_wsl("micro soft"));
    assert!(!is_wsl(""));
}

#[test]
fn response_states_body_length() {
    assert_eq!(ok_response_bytes(PAGE), expected_response());
    assert_eq!(
        ok_response_bytes(""),
        b"HTTP/1.1 200 OK\r\nContent-Type: text/html\r\nContent-Length: 0\r\n\r\n".to_vec()
    );
    assert_eq!(
        ok_response_bytes("é"),
        "HTTP/1.1 200 OK\r\nContent-Type: text/html\r\nContent-Length: 2\r\n\r\né".as_bytes().to_vec()
    );
}

fn bind_action() -> FlowAction {
    FlowAction::Bind { host: "127.0.0.1".to_string(), port: LOCAL_SERVER_PORT }
}

/// Drives a flow that stands at `Bind` through a successful exchange of `lines`.
fn serve(flow: &mut AuthFlow, lines: &[&str]) -> FlowAction {
    assert_eq!(flow.action(), bind_action());
    assert_eq!(flow.step(FlowEvent::Completed(true)), FlowAction::SetNonblocking);
    assert_eq!(flow.step(FlowEvent::Completed(true)), FlowAction::ReadClock);
    assert_eq!(
        flow.step(FlowEvent::Clock { since_start_nanos: 5, since_reminder_nanos: 5 }),
        FlowAction::Accept { remind: false }
    );
    assert_eq!(
        flow.step(FlowEvent::Accepted(AcceptOutcome::Connected)),
        FlowAction::SetReadTimeout { secs: READ_TIMEOUT_SECS }
    );
    assert_eq!(flow.step(FlowEvent::Completed(true)), FlowAction::ReadLine);
    for line in lines {
        assert_eq!(flow.step(FlowEvent::Line(Some(line.to_string()))), FlowAction::ReadLine);
    }
    assert_eq!(
        flow.step(FlowEvent::Line(Some(String::new()))),
        FlowAction::Write { bytes: expected_response() }
    );
    assert_eq!(flow.step(FlowEvent::Completed(true)), FlowAction::Flush);
    assert_eq!(flow.step(FlowEvent::Completed(true)), FlowAction::Shutdown);
    flow.step(FlowEvent::Completed(true))
}

#[test]
fn flow_macos_serves_and_returns_code() {
    let url = "https://login.example/authorize";
    let mut flow = AuthFlow::new(url, Platform::MacOs);
    assert_eq!(flow.phase(), Phase::Launching(LaunchStage::Open));
    assert_eq!(
        flow.action(),
        FlowAction::Spawn { program: "open".to_string(), args: strings(&[url]) }
    );
    assert_eq!(flow.step(FlowEvent::Spawned(true)), bind_action());
    let last = serve(
        &mut flow,
        &["GET /?code=abc123&state=xyz HTTP/1.1", "Host: localhost:47828"],
    );
    assert_eq!(
        last,
        FlowAction::Finish { code: Some("abc123".to_string()), outcome: Outcome::Answered }
    );
    assert_eq!(flow.phase(), Phase::Finished(Outcome::Answered));
    // A finished flow stays finished.
    assert_eq!(flow.step(FlowEvent::Slept), last);
}

#[test]
fn flow_request_without_code_answers_with_none() {
    let mut flow = AuthFlow::after_browser_command(true);
    let last = serve(&mut flow, &["GET /?error=access_denied HTTP/1.1"]);
    assert_eq!(last, FlowAction::Finish { code: None, outcome: Outcome::Answered });
}

#[test]
fn flow_end_of_stream_ends_request() {
    let mut flow = AuthFlow::after_browser_command(true);
    flow.step(FlowEvent::Completed(true));
    flow.step(FlowEvent::Completed(true));
    flow.step(FlowEvent::Clock { since_start_nanos: 0, since_reminder_nanos: 0 });
    flow.step(FlowEvent::Accepted(AcceptOutcome::Connected));
    flow.step(FlowEvent::Completed(true));
    flow.step(FlowEvent::Line(Some("GET /?code=k1 HTTP/1.1".to_string())));
    assert_eq!(flow.step(FlowEvent::Line(None)), FlowAction::Write { bytes: expected_response() });
    flow.step(FlowEvent::Completed(true));
    flow.step(FlowEvent::Completed(true));
    assert_eq!(
        flow.step(FlowEvent::Completed(true)),
        FlowAction::Finish { code: Some("k1".to_string()), outcome: Outcome::Answered }
    );
}

#[test]
fn flow_linux_xdg_open_success() {
    let url = "https://login.example/a?b=c";
    let mut flow = AuthFlow::new(url, Platform::OtherUnix);
    assert_eq!(flow.phase(), Phase::Launching(LaunchStage::XdgOpen));
    assert_eq!(
        flow.action(),
        FlowAction::Spawn { program: "xdg-open".to_string(), args: strings(&[url]) }
    );
    assert_eq!(flow.step(FlowEvent::Spawned(true)), bind_action());
}

#[test]
fn flow_linux_wsl_falls_back_to_powershell() {
    let url = "https://login.example/a";
    let mut flow = AuthFlow::new(url, Platform::OtherUnix);
    assert_eq!(flow.step(FlowEvent::Spawned(false)), FlowAction::ReadOsVersion);
    assert_eq!(
        flow.step(FlowEvent::OsVersion(Some("Linux version 5.15-Microsoft-standard".to_string()))),
        FlowAction::Spawn {
            program: "powershell.exe".to_string(),
            args: strings(&["-NoProfile", "-Command", "Start-Process \"https://login.example/a\""]),
        }
    );
    assert_eq!(flow.step(FlowEvent::Spawned(true)), bind_action());
}

#[test]
fn flow_linux_powershell_failure_gives_none() {
    let mut flow = AuthFlow::new("u", Platform::OtherUnix);
    flow.step(FlowEvent::Spawned(false));
    flow.step(FlowEvent::OsVersion(Some("microsoft".to_string())));
    assert_eq!(
        flow.step(FlowEvent::Spawned(false)),
        FlowAction::Finish { code: None, outcome: Outcome::BrowserNotOpened }
    );
}

#[test]
fn flow_linux_not_wsl_gives_none() {
    let mut flow = AuthFlow::new("u", Platform::OtherUnix);
    flow.step(FlowEvent::Spawned(false));
    assert_eq!(
        flow.step(FlowEvent::OsVersion(Some("Linux version 6.1".to_string()))),
        FlowAction::Finish { code: None, outcome: Outcome::BrowserNotOpened }
    );
    let mut flow = AuthFlow::new("u", Platform::OtherUnix);
    flow.step(FlowEvent::Spawned(false));
    assert_eq!(
        flow.step(FlowEvent::OsVersion(None)),
        FlowAction::Finish { code: None, outcome: Outcome::BrowserNotOpened }
    );
}

#[test]
fn flow_windows_serves_only_when_rundll32_starts() {
    let url = "https://login.example/w";
    let mut flow = AuthFlow::new(url, Platform::Windows);
    assert_eq!(
        flow.action(),
        FlowAction::Spawn {
            program: "rundll32".to_string(),
            args: strings(&["url.dll,FileProtocolHandler", url]),
        }
    );
    assert_eq!(
        flow.step(FlowEvent::Spawned(false)),
        FlowAction::Finish { code: None, outcome: Outcome::BrowserNotOpened }
    );
    let mut flow = AuthFlow::new(url, Platform::Windows);
    assert_eq!(flow.step(FlowEvent::Spawned(true)), bind_action());
}

#[test]
fn flow_macos_open_failure_gives_none() {
    let mut flow = AuthFlow::new("u", Platform::MacOs);
    assert_eq!(
        flow.step(FlowEvent::Spawned(false)),
        FlowAction::Finish { code: None, outcome: Outcome::BrowserNotOpened }
    );
}

#[test]
fn flow_other_platform_opens_nothing() {
    let flow = AuthFlow::new("u", Platform::Other);
    assert_eq!(flow.phase(), Phase::Finished(Outcome::BrowserNotOpened));
    assert_eq!(
        flow.action(),
        FlowAction::Finish { code: None, outcome: Outcome::BrowserNotOpened }
    );
}

#[test]
fn flow_after_started_browser_begins_with_server() {
    let flow = AuthFlow::after_browser_command(true);
    assert_eq!(flow.phase(), Phase::Binding);
    assert_eq!(flow.action(), bind_action());
}

#[test]
fn flow_waits_reminds_and_times_out() {
    let mut flow = AuthFlow::after_browser_command(true);
    flow.step(FlowEvent::Completed(true));
    assert_eq!(flow.step(FlowEvent::Completed(true)), FlowAction::ReadClock);
    assert_eq!(
        flow.step(FlowEvent::Clock {
            since_start_nanos: REMINDER_INTERVAL_NANOS,
            since_reminder_nanos: REMINDER_INTERVAL_NANOS,
        }),
        FlowAction::Accept { remind: true }
    );
    assert_eq!(
        flow.step(FlowEvent::Accepted(AcceptOutcome::WouldBlock)),
        FlowAction::Sleep { millis: ACCEPT_RETRY_MILLIS }
    );
    assert_eq!(flow.step(FlowEvent::Slept), FlowAction::ReadClock);
    // Exactly at the timeout the flow still waits.
    assert_eq!(
        flow.step(FlowEvent::Clock {
            since_start_nanos: AUTH_TIMEOUT_NANOS,
            since_reminder_nanos: REMINDER_INTERVAL_NANOS - 1,
        }),
        FlowAction::Accept { remind: false }
    );
    flow.step(FlowEvent::Accepted(AcceptOutcome::WouldBlock));
    flow.step(FlowEvent::Slept);
    assert_eq!(
        flow.step(FlowEvent::Clock {
            since_start_nanos: AUTH_TIMEOUT_NANOS + 1,
            since_reminder_nanos: 0,
        }),
        FlowAction::Finish { code: None, outcome: Outcome::TimedOut }
    );
}

#[test]
fn flow_failures_give_none() {
    let mut flow = AuthFlow::after_browser_command(true);
    assert_eq!(
        flow.step(FlowEvent::Completed(false)),
        FlowAction::Finish { code: None, outcome: Outcome::ServerFailed }
    );
    let mut flow = AuthFlow::after_browser_command(true);
    flow.step(FlowEvent::Completed(true));
    assert_eq!(
        flow.step(FlowEvent::Completed(false)),
        FlowAction::Finish { code: None, outcome: Outcome::ServerFailed }
    );
    let mut flow = AuthFlow::after_browser_command(true);
    flow.step(FlowEvent::Completed(true));
    flow.step(FlowEvent::Completed(true));
    flow.step(FlowEvent::Clock { since_start_nanos: 0, since_reminder_nanos: 0 });
    assert_eq!(
        flow.step(FlowEvent::Accepted(AcceptOutcome::Failed)),
        FlowAction::Finish { code: None, outcome: Outcome::AcceptFailed }
    );
    // A failed shutdown after a complete request loses the code.
    let mut flow = AuthFlow::after_browser_command(true);
    flow.step(FlowEvent::Completed(true));
    flow.step(FlowEvent::Completed(true));
    flow.step(FlowEvent::Clock { since_start_nanos: 0, since_reminder_nanos: 0 });
    flow.step(FlowEvent::Accepted(AcceptOutcome::Connected));
    flow.step(FlowEvent::Completed(true));
    flow.step(FlowEvent::Line(Some("GET /?code=z".to_string())));
    flow.step(FlowEvent::Line(Some(String::new())));
    flow.step(FlowEvent::Completed(true));
    flow.step(FlowEvent::Completed(true));
    assert_eq!(
        flow.step(FlowEvent::Completed(false)),
        FlowAction::Finish { code: None, outcome: Outcome::ExchangeFailed }
    );
}

#[test]
fn flow_ignores_events_that_answer_nothing() {
    let mut flow = AuthFlow::after_browser_command(true);
    assert_eq!(flow.step(FlowEvent::Slept), bind_action());
    assert_eq!(flow.phase(), Phase::Binding);
}

#[test]
fn flow_after_browser_command() {
    let flow = AuthFlow::after_browser_command(false);
    assert_eq!(
        flow.action(),
        FlowAction::Finish { code: None, outcome: Outcome::BrowserNotOpened }
    );
    let mut flow = AuthFlow::after_browser_command(true);
    let last = serve(&mut flow, &["GET /?state=s&code=c0de HTTP/1.1"]);
    assert_eq!(
        last,
        FlowAction::Finish { code: Some("c0de".to_string()), outcome: Outcome::Answered }
    );
}
