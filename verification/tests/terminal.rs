use majin::assets::{
    asset_headers, asset_path, cache_control, choose_asset, is_embedded, Bundle, IMMUTABLE, INDEX,
    NO_CACHE,
};
use majin::banner::{banner_lines, warns_of_unsafe_exposure, BannerFacts};
use majin::protocol::{TerminalSize, CLOSE_NORMAL, CLOSE_SHELL_EXITED};
use majin::pty::{
    default_locale, exit_code, plan_spawn, read_buffer_len, OutputPump, PtyConfig, PtyError,
    PtyEvent, WorkingDir,
};
use majin::session::{ClientFrame, LoopAction, SessionLoop, SocketEvent};

#[test]
fn output_is_forwarded_and_the_loop_keeps_going() {
    let mut s = SessionLoop::new();
    let a = s.on_pty(Some(PtyEvent::Output(String::from("hi"))));
    assert!(matches!(a, LoopAction::SendOutput(ref t) if t == "hi"));
    assert!(s.is_running());
    assert_eq!(s.close_code(), CLOSE_NORMAL);
}

#[test]
fn a_shell_exit_ends_the_loop_with_its_own_close_code() {
    let mut s = SessionLoop::new();
    let a = s.on_pty(Some(PtyEvent::Exit(3)));
    assert!(matches!(a, LoopAction::SendExit(3)));
    assert!(!s.is_running());
    assert_eq!(s.close_code(), CLOSE_SHELL_EXITED);
}

#[test]
fn a_lost_pty_channel_closes_normally() {
    let mut s = SessionLoop::new();
    assert!(matches!(s.on_pty(None), LoopAction::Stop));
    assert!(!s.is_running());
    assert_eq!(s.close_code(), CLOSE_NORMAL);
}

#[test]
fn client_frames_are_dispatched_and_malformed_ones_dropped() {
    let mut s = SessionLoop::new();
    let a = s.on_socket(SocketEvent::Text(ClientFrame::Input(String::from("ls\n"))));
    assert!(matches!(a, LoopAction::WriteInput(ref d) if d == "ls\n"));
    let a = s.on_socket(SocketEvent::Text(ClientFrame::Resize { cols: 120, rows: 40 }));
    assert!(matches!(a, LoopAction::Resize(sz) if sz == TerminalSize::new(120, 40)));
    assert!(matches!(s.on_socket(SocketEvent::Text(ClientFrame::Ping)), LoopAction::SendPong));
    assert!(matches!(s.on_socket(SocketEvent::Text(ClientFrame::Malformed)), LoopAction::Ignore));
    assert!(matches!(s.on_socket(SocketEvent::Other), LoopAction::Ignore));
    assert!(s.is_running());
    assert!(matches!(s.on_socket(SocketEvent::Closed), LoopAction::Stop));
    assert!(!s.is_running());
    assert_eq!(s.close_code(), CLOSE_NORMAL);
}

#[test]
fn socket_errors_and_failed_sends_close_normally() {
    let mut s = SessionLoop::new();
    assert!(matches!(s.on_socket(SocketEvent::Failed), LoopAction::Stop));
    assert_eq!(s.close_code(), CLOSE_NORMAL);
    let mut s = SessionLoop::new();
    s.on_transport_failure();
    assert!(!s.is_running());
    assert_eq!(s.close_code(), CLOSE_NORMAL);
}

#[test]
fn the_pump_forwards_decoded_text_and_flushes_at_the_end() {
    let mut p = OutputPump::new();
    let bytes = "€".as_bytes();
    assert_eq!(p.on_read(&bytes[..1]), None);
    assert_eq!(p.on_read(&bytes[1..]), Some(PtyEvent::Output(String::from("€"))));
    assert_eq!(p.on_read(&bytes[..2]), None);
    assert_eq!(p.on_end(), Some(PtyEvent::Output(String::from("\u{fffd}"))));
    assert_eq!(p.on_end(), None);
}

#[test]
fn exit_codes_are_reinterpreted_as_signed() {
    assert_eq!(exit_code(Some(0)), 0);
    assert_eq!(exit_code(Some(130)), 130);
    assert_eq!(exit_code(Some(u32::MAX)), -1);
    assert_eq!(exit_code(None), -1);
}

#[test]
fn the_read_buffer_is_at_least_one_kib() {
    assert_eq!(read_buffer_len(0), 1024);
    assert_eq!(read_buffer_len(1023), 1024);
    assert_eq!(read_buffer_len(8192), 8192);
}

#[test]
fn an_explicit_locale_always_wins() {
    assert_eq!(default_locale(Some("en_US.UTF-8"), None, None, false), None);
    assert_eq!(default_locale(None, None, Some("C"), true), None);
    assert_eq!(default_locale(Some(""), Some(""), None, false), Some(("LC_CTYPE", "C.UTF-8")));
    assert_eq!(default_locale(None, None, None, true), Some(("LC_CTYPE", "UTF-8")));
}

#[test]
fn the_spawn_plan_fills_in_defaults_and_layers_the_environment() {
    let mut config = PtyConfig::default();
    config.size = TerminalSize::new(0, 5000);
    config.env = vec![(String::from("TERM"), String::from("dumb"))];
    config.args = vec![String::from("-l")];
    let plan = plan_spawn(
        config,
        String::from("/bin/zsh"),
        Some(std::path::PathBuf::from("/home/me")),
        Some(("LC_CTYPE", "C.UTF-8")),
    );
    assert_eq!(plan.shell, "/bin/zsh");
    assert_eq!(plan.args, vec![String::from("-l")]);
    assert_eq!(plan.cwd, WorkingDir::Home(std::path::PathBuf::from("/home/me")));
    assert_eq!(plan.size, TerminalSize::new(1, 1000));
    assert_eq!(plan.read_buffer_bytes, 8192);
    let env: Vec<(&str, &str)> = plan.env.iter().map(|(k, v)| (k.as_str(), v.as_str())).collect();
    assert_eq!(
        env,
        vec![
            ("TERM", "xterm-256color"),
            ("COLORTERM", "truecolor"),
            ("LC_CTYPE", "C.UTF-8"),
            ("TERM", "dumb"),
        ]
    );
}

#[test]
fn a_configured_shell_and_directory_are_kept() {
    let mut config = PtyConfig::default();
    config.shell = Some(String::from("/bin/sh"));
    config.cwd = Some(std::path::PathBuf::from("/tmp"));
    let plan = plan_spawn(config, String::from("/bin/bash"), None, None);
    assert_eq!(plan.shell, "/bin/sh");
    assert_eq!(plan.cwd, WorkingDir::Given(std::path::PathBuf::from("/tmp")));
    assert_eq!(plan.env.len(), 2);
    let plan = plan_spawn(PtyConfig::default(), String::from("/bin/bash"), None, None);
    assert_eq!(plan.cwd, WorkingDir::Current);
    assert_eq!(plan.size, TerminalSize::new(80, 24));
}

#[test]
fn pty_errors_read_as_sentences() {
    assert_eq!(
        PtyError::OpenPty(String::from("no ptys")).message(),
        "failed to open a pseudo terminal: no ptys"
    );
    assert_eq!(
        PtyError::Spawn { shell: String::from("/bin/nope"), reason: String::from("not found") }
            .message(),
        "failed to spawn `/bin/nope`: not found"
    );
    assert_eq!(
        PtyError::Write(String::from("broken pipe")).message(),
        "failed to write to the pseudo terminal: broken pipe"
    );
    assert_eq!(
        PtyError::Resize(String::from("bad")).message(),
        "failed to resize the pseudo terminal: bad"
    );
}

fn bundle(paths: &[&str]) -> Bundle {
    Bundle::new(paths.iter().map(|p| p.to_string()).collect())
}

#[test]
fn request_paths_name_bundle_paths() {
    assert_eq!(asset_path("/"), INDEX);
    assert_eq!(asset_path(""), INDEX);
    assert_eq!(asset_path("///"), INDEX);
    assert_eq!(asset_path("/assets/app.js"), "assets/app.js");
    assert_eq!(asset_path("//x/y"), "x/y");
}

#[test]
fn client_routes_fall_back_to_the_entry_document() {
    let b = bundle(&["index.html", "assets/app-1234.js"]);
    assert!(is_embedded(&b));
    assert_eq!(choose_asset(&b, "assets/app-1234.js"), Some(String::from("assets/app-1234.js")));
    assert_eq!(choose_asset(&b, "settings/profile"), Some(String::from("index.html")));
    assert_eq!(choose_asset(&b, "assets/missing.js"), None);
    let empty = bundle(&[]);
    assert!(!is_embedded(&empty));
    assert_eq!(choose_asset(&empty, "settings"), None);
}

#[test]
fn only_the_entry_document_is_revalidated() {
    assert_eq!(cache_control("index.html"), NO_CACHE);
    assert_eq!(cache_control("assets/app.js"), IMMUTABLE);
    assert_eq!(cache_control("index.htm"), IMMUTABLE);
}

#[test]
fn assets_are_served_with_their_media_type() {
    let h = asset_headers("index.html");
    assert_eq!(h.content_type, "text/html");
    assert_eq!(h.cache_control, "no-cache");
    let h = asset_headers("assets/app.js");
    assert!(h.content_type.contains("javascript"));
    assert_eq!(h.cache_control, "public, max-age=31536000, immutable");
    assert_eq!(asset_headers("blob.unknownext").content_type, "application/octet-stream");
}

fn facts(token: Option<&str>, loopback: bool, embedded: bool) -> BannerFacts {
    BannerFacts {
        version: String::from("0.2.0"),
        ip: String::from("0.0.0.0"),
        ip_unspecified: true,
        ip_loopback: loopback,
        port: 8999,
        bound: String::from("0.0.0.0:8999"),
        token: token.map(String::from),
        user: String::from("alice"),
        frontend_embedded: embedded,
    }
}

#[test]
fn the_banner_links_with_the_token_in_the_fragment() {
    let lines = banner_lines(&facts(Some("tok"), true, true));
    assert_eq!(
        lines,
        vec![
            "",
            "  majin 0.2.0 \u{2014} terminal over the web",
            "",
            "  Open:  http://localhost:8999/#token=tok",
            "",
            "  Token: tok",
            "  The link carries the token in the URL fragment, which browsers",
            "  never send to a server. It is cleared from the address bar as",
            "  soon as the page exchanges it for a session cookie.",
            "",
        ]
    );
}

#[test]
fn the_banner_warns_about_disabled_auth_and_exposure() {
    let mut f = facts(None, false, false);
    f.ip_unspecified = false;
    f.ip = String::from("192.168.1.5");
    f.bound = String::from("192.168.1.5:8999");
    let lines = banner_lines(&f);
    assert_eq!(lines[3], "  Open:  http://192.168.1.5:8999");
    assert_eq!(lines[5], "  !! Authentication is DISABLED (--insecure-no-auth).");
    assert_eq!(lines[6], "  !! Anyone who can reach this port gets a shell as alice.");
    assert_eq!(
        lines[8],
        "  !! Listening on 192.168.1.5:8999, which is reachable beyond this machine."
    );
    assert_eq!(
        lines[12],
        "  Note: no frontend is embedded in this binary. Build it with"
    );
    assert_eq!(lines.len(), 15);
    assert!(warns_of_unsafe_exposure(true, false));
    assert!(!warns_of_unsafe_exposure(true, true));
    assert!(!warns_of_unsafe_exposure(false, false));
}

#[test]
fn the_ready_frame_names_the_session_shell_and_size() {
    let f = majin::session::ready_frame(String::from("0123abcd"), "/bin/sh", TerminalSize::new(80, 24));
    assert_eq!(f.protocol_version, majin::protocol::PROTOCOL_VERSION);
    assert_eq!(f.session_id, "0123abcd");
    assert_eq!(f.shell, "/bin/sh");
    assert_eq!((f.cols, f.rows), (80, 24));
}
