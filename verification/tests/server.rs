use barsign_disp::hub75::Hub75;
use barsign_disp::menu::Context;
use barsign_disp::server::{HttpConn, SendOutcome, CLOSE_GRACE_MS, REQUEST_LIMIT_MS};

fn context() -> Context {
    let mut hub75 = Hub75::new();
    hub75.set_img_param(4, 8);
    Context::new(hub75, [2, 0, 0, 0, 0, 1])
}

#[test]
fn connection_serves_a_request() {
    let mut ctx = context();
    let mut conn = HttpConn::new();
    assert!(conn.wants_input(true));
    assert!(!conn.wants_input(false));
    assert!(!conn.on_input(b"POST /api/display/on HTTP/1.1\r\n", &mut ctx, [1, 2, 3, 4]));
    assert_eq!(conn.unsent().len(), 0);
    assert!(conn.on_input(b"\r\n", &mut ctx, [1, 2, 3, 4]));
    assert!(!conn.wants_input(true));
    assert!(ctx.hub75.is_on());
    let total = conn.unsent().len();
    assert!(conn.unsent().ends_with(b"{\"ok\":true,\"display\":\"on\"}"));
    assert_eq!(conn.on_sent(10, 100, false), SendOutcome::Pending);
    assert_eq!(conn.close_at, 0);
    assert_eq!(conn.unsent().len(), total - 10);
    assert_eq!(conn.on_sent(total - 10, 120, false), SendOutcome::Close);
    assert_eq!(conn.close_at, 120 + CLOSE_GRACE_MS);
    assert_eq!(conn.unsent().len(), 0);
}

#[test]
fn reboot_follows_the_answer() {
    let mut ctx = context();
    let mut conn = HttpConn::new();
    assert!(conn.on_input(b"GET /x HTTP/1.1\r\n\r\n", &mut ctx, [1, 2, 3, 4]));
    let total = conn.unsent().len();
    assert_eq!(conn.on_sent(total, i64::MAX, true), SendOutcome::CloseAndReboot);
    assert_eq!(conn.close_at, i64::MAX);
}

#[test]
fn nothing_to_send_never_closes() {
    let mut conn = HttpConn::new();
    assert_eq!(conn.on_sent(0, 5, true), SendOutcome::Pending);
    conn.sent = 10;
    assert_eq!(conn.unsent().len(), 0);
}

#[test]
fn recycling_after_the_grace_period() {
    let mut conn = HttpConn::new();
    assert!(!conn.recycle(true, true, 1000));
    conn.close_at = 1050;
    assert!(!conn.recycle(true, true, 1049));
    assert_eq!(conn.close_at, 1050);
    assert!(conn.recycle(true, true, 1050));
    assert_eq!(conn.close_at, 0);
    conn.close_at = 1050;
    assert!(conn.recycle(true, false, 1000));
    conn.close_at = 1050;
    assert!(!conn.recycle(false, false, 1000));
    assert_eq!(conn.close_at, 0);
}

#[test]
fn stuck_connections_are_given_up() {
    let mut conn = HttpConn::new();
    assert!(!conn.watch(true, true, 100));
    assert_eq!(conn.connected_at, 100);
    assert!(!conn.watch(true, true, 100 + REQUEST_LIMIT_MS));
    assert!(conn.watch(true, true, 101 + REQUEST_LIMIT_MS));
    assert_eq!(conn.connected_at, 0);
    assert!(!conn.watch(true, true, 7000));
    assert_eq!(conn.connected_at, 7000);
    assert!(conn.watch(true, false, 7001));
    assert!(!conn.watch(false, false, 7002));
    assert_eq!(conn.connected_at, 0);
}

#[test]
fn whole_request_is_never_given_up() {
    let mut ctx = context();
    let mut conn = HttpConn::new();
    assert!(conn.on_input(b"GET / HTTP/1.1\r\n\r\n", &mut ctx, [1, 2, 3, 4]));
    assert!(!conn.watch(true, false, 50));
    assert!(!conn.watch(true, true, 50 + 2 * REQUEST_LIMIT_MS));
    assert_eq!(conn.connected_at, 50);
}

#[test]
fn rearm_empties_the_connection() {
    let mut ctx = context();
    let mut conn = HttpConn::new();
    assert!(conn.on_input(b"GET / HTTP/1.1\r\n\r\n", &mut ctx, [1, 2, 3, 4]));
    conn.on_sent(5, 1, false);
    conn.watch(true, true, 9);
    conn.rearm();
    assert_eq!(conn.sent, 0);
    assert_eq!(conn.connected_at, 0);
    assert_eq!(conn.unsent().len(), 0);
    assert!(conn.wants_input(true));
    assert_eq!(conn.request.bytes().len(), 0);
}
