use status_line::wifi::{is_message_unsolicited, ssid_of_status, StatusWatcher, STATUS_COMMAND};
use status_line::wpactrl::{
    decode_message, select_outcome, Client, ClientBuilder, ClientInternal, Error, ATTACH_COMMAND,
    OK_REPLY,
};

fn attached() -> status_line::wpactrl::ClientAttached {
    let mut c = Client::new();
    assert_eq!(c.send_request(ATTACH_COMMAND), b"ATTACH".to_vec());
    let reply = c.on_message("OK\n".to_string()).unwrap();
    match c.attach(&reply) {
        Ok(a) => a,
        Err(_) => panic!("attach refused"),
    }
}

#[test]
fn attach() {
    let a = attached();
    assert!(!a.pending());
    assert!(!a.awaiting_reply());
}

#[test]
fn attach_refused_on_other_reply() {
    let mut c = Client::new();
    c.send_request(ATTACH_COMMAND);
    let reply = c.on_message("FAIL\n".to_string()).unwrap();
    assert!(matches!(c.attach(&reply), Err(Error::Attach)));
    assert_eq!(OK_REPLY, "OK\n");
}

#[test]
fn builder() {
    let b = Client::builder();
    assert_eq!(b.server_path(), "/var/run/wpa_supplicant/wlan0");
    assert_eq!(b.client_dir(), "/tmp");
    let b = b.ctrl_path(Some("/run/wpa/wlp3s0".to_string())).cli_path(Some("/run/me".to_string()));
    assert_eq!(b.server_path(), "/run/wpa/wlp3s0");
    assert_eq!(b.client_dir(), "/run/me");
    let b = b.ctrl_path(None);
    assert_eq!(b.server_path(), "/var/run/wpa_supplicant/wlan0");
}

#[test]
fn bind_filename_and_retry() {
    assert_eq!(ClientBuilder::bind_filename(4321, 1), "wpa_ctrl_4321-1");
    assert_eq!(ClientBuilder::bind_filename(0, 12), "wpa_ctrl_0-12");
    assert!(ClientBuilder::retry_bind(1, true));
    assert!(!ClientBuilder::retry_bind(2, true));
    assert!(!ClientBuilder::retry_bind(1, false));
}

#[test]
fn request() {
    let mut c = Client::new();
    c.send_request("PING");
    assert_eq!(c.on_message("PONG\n".to_string()), Some("PONG\n".to_string()));
    let mut a = attached();
    a.send_request("PING");
    assert_eq!(a.on_message("PONG\n".to_string()), Some("PONG\n".to_string()));
}

#[test]
fn recv() {
    let mut wpa = attached();
    assert_eq!(wpa.recv(), None);
    assert_eq!(wpa.send_request("SCAN"), b"SCAN".to_vec());
    assert_eq!(wpa.on_message("OK\n".to_string()), Some("OK\n".to_string()));
    assert_eq!(wpa.on_message("<3>CTRL-EVENT-SCAN-STARTED ".to_string()), None);
    let s = wpa.recv().unwrap();
    assert_eq!(&s[3..], "CTRL-EVENT-SCAN-STARTED ");
}

#[test]
fn request_queues_unsolicited_before_reply() {
    let mut a = attached();
    a.send_request(STATUS_COMMAND);
    assert!(a.awaiting_reply());
    assert_eq!(a.on_message("<event1>".to_string()), None);
    assert_eq!(a.on_message("<event2>".to_string()), None);
    assert_eq!(a.on_message("OK\n".to_string()), Some("OK\n".to_string()));
    assert!(!a.awaiting_reply());
    assert!(a.pending());
    assert_eq!(a.recv(), Some("<event1>".to_string()));
    assert_eq!(a.recv(), Some("<event2>".to_string()));
    assert_eq!(a.recv(), None);
}

#[test]
fn interface_events_are_unsolicited() {
    let mut c = ClientInternal::new();
    c.send_request("STATUS");
    assert_eq!(c.on_message("IFNAME=wlan0 <3>CTRL-EVENT-CONNECTED".to_string()), None);
    assert_eq!(c.on_message("wpa_state=COMPLETED\n".to_string()), Some("wpa_state=COMPLETED\n".to_string()));
    assert_eq!(c.on_message("stray".to_string()), None);
    assert_eq!(c.recv(), Some("IFNAME=wlan0 <3>CTRL-EVENT-CONNECTED".to_string()));
    assert_eq!(c.recv(), Some("stray".to_string()));
}

#[test]
fn unsolicited_classification() {
    assert!(is_message_unsolicited("<3>CTRL-EVENT-SCAN-STARTED "));
    assert!(is_message_unsolicited("IFNAME=wlan0 <3>x"));
    assert!(!is_message_unsolicited("OK\n"));
    assert!(!is_message_unsolicited(""));
    assert!(!is_message_unsolicited("IFNAME"));
}

#[test]
fn decode_and_select() {
    assert_eq!(decode_message(b"OK\n").ok(), Some("OK\n".to_string()));
    assert_eq!(decode_message("caf\u{e9}".as_bytes()).ok(), Some("caf\u{e9}".to_string()));
    assert!(matches!(decode_message(&[0x66, 0xff, 0x66]), Err(Error::Utf8ToStr(_))));
    assert!(matches!(select_outcome(0), Ok(false)));
    assert!(matches!(select_outcome(1), Ok(true)));
    assert!(matches!(select_outcome(-1), Err(Error::Wait)));
}

#[test]
fn ssid_parsing() {
    let status = "bssid=00:11:22:33:44:55\nfreq=2412\nssid= HomeNet \nid=0\nwpa_state=COMPLETED\n";
    assert_eq!(ssid_of_status(status), Some("HomeNet".to_string()));
    assert_eq!(ssid_of_status("wpa_state=DISCONNECTED\n"), None);
    assert_eq!(ssid_of_status("ssid=Cafe\r\n"), Some("Cafe".to_string()));
    assert_eq!(ssid_of_status("x=1 ssid=no\nssid=yes"), Some("yes".to_string()));
    assert_eq!(ssid_of_status(""), None);
}

#[test]
fn status_watcher_reissues_after_unsolicited() {
    let mut w = StatusWatcher::new();
    assert_eq!(w.on_message("ssid=A\n"), Some(Some("A".to_string())));
    assert!(!w.end_of_drain());
    assert_eq!(w.on_message("<3>CTRL-EVENT-DISCONNECTED"), None);
    assert_eq!(w.on_message("wpa_state=SCANNING\n"), Some(None));
    assert!(w.end_of_drain());
    assert!(!w.end_of_drain());
}
