use barsign_disp::http::{
    find_header_end, json_get_bytes, json_get_str, next_state, parse_content_length, parse_usize,
    HttpRequest, Method, ParseState, MAX_REQUEST,
};
use barsign_disp::http_api::{handle_request, route, Route};
use barsign_disp::http_response::{decimal_text, HttpResponse, Piece, RESPONSE_CAPACITY};
use barsign_disp::hub75::{Hub75, OutputMode};
use barsign_disp::menu::{Animation, Context};

const JSON_HEAD: &str = "HTTP/1.1 200 OK\r\nContent-Type: application/json\r\nConnection: close\r\n\r\n";
const BAD_HEAD: &str = "HTTP/1.1 400 Bad Request\r\nConnection: close\r\n\r\n";

fn context(width: u16, length: u32) -> Context {
    let mut hub75 = Hub75::new();
    hub75.set_img_param(width, length);
    Context::new(hub75, [0x02, 0x78, 0x7b, 0x21, 0xae, 0x53])
}

fn request(text: &str) -> HttpRequest {
    let mut req = HttpRequest::new();
    req.feed(text.as_bytes());
    req
}

fn serve(text: &str, ctx: &mut Context) -> String {
    let req = request(text);
    assert!(req.is_complete());
    let mut resp = HttpResponse::new();
    handle_request(&req, &mut resp, ctx, [10, 11, 6, 250]);
    String::from_utf8(resp.as_bytes().to_vec()).unwrap()
}

#[test]
fn request_without_body_completes_at_the_blank_line() {
    let mut req = HttpRequest::new();
    assert!(!req.is_complete());
    assert!(!req.feed(b"GET /api/status HT"));
    assert!(!req.feed(b"TP/1.1\r\nHost: sign\r\n"));
    assert!(req.feed(b"\r\n"));
    assert!(req.is_complete());
    assert_eq!(req.method(), Method::Get);
    assert_eq!(req.path(), "/api/status");
    assert_eq!(req.body_str(), "");
    assert_eq!(req.bytes().len(), 40);
}

#[test]
fn request_with_body_waits_for_all_of_it() {
    let mut req = HttpRequest::new();
    assert!(!req.feed(b"POST /api/layout HTTP/1.1\r\nContent-Length: 14\r\n\r\n{\"grid\""));
    assert!(!req.is_complete());
    assert!(!req.feed(b":\"2x"));
    assert!(req.feed(b"1\"}"));
    assert_eq!(req.method(), Method::Post);
    assert_eq!(req.path(), "/api/layout");
    assert_eq!(req.body_str(), "{\"grid\":\"2x1\"}");
}

#[test]
fn lower_case_length_header_counts() {
    let mut req = HttpRequest::new();
    assert!(!req.feed(b"POST /x HTTP/1.1\r\ncontent-length: 3\r\n\r\nab"));
    assert!(req.feed(b"c"));
    assert_eq!(req.body_str(), "abc");
}

#[test]
fn full_buffer_completes_the_request() {
    let mut req = HttpRequest::new();
    assert!(!req.feed(&vec![b'a'; MAX_REQUEST - 1]));
    assert!(req.feed(b"bcd"));
    assert_eq!(req.bytes().len(), MAX_REQUEST);
    assert_eq!(req.bytes()[MAX_REQUEST - 1], b'b');
    assert_eq!(req.method(), Method::Unknown);
    assert_eq!(req.path(), "/");
    assert!(req.feed(b"more"));
    assert_eq!(req.bytes().len(), MAX_REQUEST);
}

#[test]
fn body_longer_than_the_buffer_completes_when_full() {
    let mut req = HttpRequest::new();
    assert!(!req.feed(b"POST /x HTTP/1.1\r\nContent-Length: 100000\r\n\r\n"));
    assert!(!req.feed(&vec![b'x'; 400]));
    assert!(req.feed(&vec![b'x'; 400]));
    assert_eq!(req.bytes().len(), MAX_REQUEST);
}

#[test]
fn reset_empties_the_request() {
    let mut req = request("GET / HTTP/1.1\r\n\r\n");
    assert!(req.is_complete());
    req.reset();
    assert!(!req.is_complete());
    assert_eq!(req.bytes().len(), 0);
    assert_eq!(req.method(), Method::Unknown);
}

#[test]
fn method_and_path() {
    assert_eq!(request("GET").method(), Method::Unknown);
    assert_eq!(request("GET ").method(), Method::Get);
    assert_eq!(request("POST ").method(), Method::Post);
    assert_eq!(request("PUT /x").method(), Method::Unknown);
    assert_eq!(request("get /x").method(), Method::Unknown);
    assert_eq!(request("GET /a/b").path(), "/a/b");
    assert_eq!(request("GET /a\rb").path(), "/a");
    assert_eq!(request("GET ").path(), "");
    assert_eq!(request("PUT /x").path(), "/");
    assert_eq!(request("POST /p q").path(), "/p");
    let mut req = HttpRequest::new();
    req.feed(b"GET /\xFF\xFE rest");
    assert_eq!(req.path(), "/");
    assert_eq!(req.path_bytes(), Some(&b"/\xFF\xFE"[..]));
}

#[test]
fn invalid_body_reads_as_empty() {
    let mut req = HttpRequest::new();
    req.feed(b"POST /x HTTP/1.1\r\n\r\n\xFFabc");
    assert_eq!(req.body_bytes(), b"\xFFabc");
    assert_eq!(req.body_str(), "");
}

#[test]
fn header_end_and_content_length() {
    assert_eq!(find_header_end(b"ab\r\n\r\ncd"), Some(2));
    assert_eq!(find_header_end(b"\r\n\r\n"), Some(0));
    assert_eq!(find_header_end(b"\r\n\r"), None);
    assert_eq!(find_header_end(b"a\r\n\rb\n\r\n"), None);
    assert_eq!(parse_content_length(b"Content-Length: 42\r\n"), 42);
    assert_eq!(parse_content_length(b"A: b\r\ncontent-length: 7"), 7);
    assert_eq!(parse_content_length(b"content-length: 7\r\nContent-Length: 9"), 9);
    assert_eq!(parse_content_length(b"Content-Length: x\r\ncontent-length: 7"), 0);
    assert_eq!(parse_content_length(b"Content-Length:42"), 0);
    assert_eq!(parse_content_length(b"Content-Length: 99999999999999999999999999"), 0);
    assert_eq!(parse_content_length(b"Content-Length: 12abc"), 12);
    assert_eq!(parse_content_length(b"CONTENT-LENGTH: 5"), 0);
    assert_eq!(parse_content_length(b""), 0);
    assert_eq!(parse_usize(b"123"), Ok(123));
    assert_eq!(parse_usize(b""), Err(()));
    assert_eq!(parse_usize(b"12 "), Err(()));
}

#[test]
fn next_state_transitions() {
    assert_eq!(next_state(b"GET /", ParseState::ReadingHeaders), ParseState::ReadingHeaders);
    assert_eq!(next_state(b"GET /\r\n\r\n", ParseState::ReadingHeaders), ParseState::Complete);
    assert_eq!(
        next_state(b"P\r\nContent-Length: 5\r\n\r\nab", ParseState::ReadingHeaders),
        ParseState::ReadingBody { content_length: 5, body_start: 24 }
    );
    assert_eq!(
        next_state(b"P\r\nContent-Length: 2\r\n\r\nab", ParseState::ReadingHeaders),
        ParseState::Complete
    );
    let body = ParseState::ReadingBody { content_length: 5, body_start: 4 };
    assert_eq!(next_state(b"12345678", body), body);
    assert_eq!(next_state(b"123456789", body), ParseState::Complete);
    assert_eq!(next_state(b"", ParseState::Complete), ParseState::Complete);
}

#[test]
fn json_members() {
    assert_eq!(json_get_str("{\"name\":\"grid\"}", "name"), Some("grid"));
    assert_eq!(json_get_str("{\"a\":\"1\",\"name\" :  \"x y\"}", "name"), Some("x y"));
    assert_eq!(json_get_str("{\"name\":\"\"}", "name"), Some(""));
    assert_eq!(json_get_str("{\"name\":\"grid\"}", "nam"), None);
    assert_eq!(json_get_str("{\"name\":\"grid\"}", "ame"), None);
    assert_eq!(json_get_str("{\"name\":5}", "name"), None);
    assert_eq!(json_get_str("{\"name\":\"open", "name"), None);
    assert_eq!(json_get_str("{\"name\"\t:\"x\"}", "name"), None);
    assert_eq!(json_get_str("", "name"), None);
    assert_eq!(json_get_str("{\"name\":1,\"name\":\"second\"}", "name"), Some("second"));
    assert_eq!(json_get_str("{\"x\":\"name\",\"name\":\"v\"}", "name"), Some("v"));
    assert_eq!(json_get_str("{\"\":\"e\"}", ""), Some("e"));
    assert_eq!(json_get_bytes(b"{\"k\":\"\xFF\"}", b"k"), Some(&b"\xFF"[..]));
}

#[test]
fn response_appends_whole_pieces_only() {
    let mut resp = HttpResponse::new();
    assert_eq!(resp.as_bytes().len(), 0);
    assert_eq!(resp.write_str("abc"), Ok(()));
    resp.push_str("de");
    assert_eq!(resp.as_bytes(), b"abcde");
    let long = "x".repeat(RESPONSE_CAPACITY - 5);
    assert_eq!(resp.write_str(&long), Ok(()));
    assert_eq!(resp.as_bytes().len(), RESPONSE_CAPACITY);
    assert_eq!(resp.write_str("y"), Err(()));
    resp.push_str("y");
    assert_eq!(resp.as_bytes().len(), RESPONSE_CAPACITY);
    assert_eq!(resp.write_str(""), Ok(()));
    resp.clear();
    assert_eq!(resp.as_bytes().len(), 0);
}

#[test]
fn writing_stops_at_the_first_piece_that_does_not_fit() {
    let mut resp = HttpResponse::new();
    resp.push_str(&"x".repeat(RESPONSE_CAPACITY - 4));
    resp.write(&[Piece::Text("ab"), Piece::Dec(123), Piece::Text("c"), Piece::Hex2(0x0f)]);
    assert_eq!(&resp.as_bytes()[RESPONSE_CAPACITY - 4..], b"ab");
    resp.write(&[Piece::Bytes(b"z"), Piece::Hex2(0xA0), Piece::Text("")]);
    assert_eq!(&resp.as_bytes()[RESPONSE_CAPACITY - 4..], b"abz");
    resp.write(&[Piece::Text("q")]);
    assert_eq!(&resp.as_bytes()[RESPONSE_CAPACITY - 4..], b"abzq");
}

#[test]
fn pieces_are_formatted() {
    let mut resp = HttpResponse::new();
    resp.write(&[Piece::Dec(0), Piece::Text(" "), Piece::Dec(u64::MAX), Piece::Text(" "), Piece::Hex2(0), Piece::Hex2(0xAB), Piece::Hex2(0x9f)]);
    assert_eq!(resp.as_bytes(), b"0 18446744073709551615 00ab9f");
    assert_eq!(decimal_text(7), b"7");
    assert_eq!(decimal_text(10), b"10");
    assert_eq!(decimal_text(4096), b"4096");
    assert!(resp.put(true, b"."));
    assert!(!resp.put(false, b"."));
    assert!(resp.put_dec(true, 12));
    assert!(resp.put_hex2(true, 1));
    assert!(resp.put_str(true, "!"));
    assert_eq!(resp.as_bytes(), b"0 18446744073709551615 00ab9f.1201!");
}

#[test]
fn fixed_answers() {
    let mut resp = HttpResponse::new();
    resp.push_str("old");
    resp.not_found();
    assert_eq!(resp.as_bytes(), b"HTTP/1.1 404 Not Found\r\nConnection: close\r\n\r\nNot Found");
    resp.bad_request("why");
    assert_eq!(resp.as_bytes(), b"HTTP/1.1 400 Bad Request\r\nConnection: close\r\n\r\nwhy");
    resp.ok_json();
    assert_eq!(resp.as_bytes(), JSON_HEAD.as_bytes());
    resp.ok_html();
    assert_eq!(resp.as_bytes(), b"HTTP/1.1 200 OK\r\nContent-Type: text/html;charset=utf-8\r\nConnection: close\r\n\r\n");
}

#[test]
fn routes() {
    assert_eq!(route(Method::Get, "/"), Route::StatusPage);
    assert_eq!(route(Method::Post, "/"), Route::NotFound);
    assert_eq!(route(Method::Get, "/api/status"), Route::Status);
    assert_eq!(route(Method::Get, "/api/layout"), Route::LayoutGet);
    assert_eq!(route(Method::Post, "/api/layout"), Route::LayoutPost);
    assert_eq!(route(Method::Post, "/api/layout/apply"), Route::LayoutApply);
    assert_eq!(route(Method::Get, "/api/layout/apply"), Route::NotFound);
    assert_eq!(route(Method::Get, "/api/display"), Route::DisplayGet);
    assert_eq!(route(Method::Post, "/api/display/on"), Route::DisplayOn);
    assert_eq!(route(Method::Post, "/api/display/off"), Route::DisplayOff);
    assert_eq!(route(Method::Post, "/api/display/pattern"), Route::DisplayPattern);
    assert_eq!(route(Method::Get, "/api/bitmap/stats"), Route::BitmapStats);
    assert_eq!(route(Method::Unknown, "/"), Route::NotFound);
    assert_eq!(route(Method::Get, "/api/status/"), Route::NotFound);
}

#[test]
fn status_answer() {
    let mut ctx = context(96, 4608);
    let text = serve("GET /api/status HTTP/1.1\r\n\r\n", &mut ctx);
    assert_eq!(
        text,
        format!(
            "{}{}",
            JSON_HEAD,
            "{\"mac\":\"02:78:7b:21:ae:53\",\"ip\":\"10.11.6.250\",\"display_width\":96,\"display_height\":48,\"grid\":\"1x1\",\"virtual_width\":96,\"virtual_height\":48,\"panel_width\":96,\"panel_height\":48,\"animation\":\"none\",\"bitmap_frames\":0}"
        )
    );
}

#[test]
fn status_page() {
    let mut ctx = context(96, 4608);
    ctx.animation = Animation::Rainbow { phase: 9 };
    ctx.bitmap_stats.frames_completed = 12;
    let text = serve("GET / HTTP/1.1\r\n\r\n", &mut ctx);
    assert!(text.starts_with("HTTP/1.1 200 OK\r\nContent-Type: text/html;charset=utf-8\r\nConnection: close\r\n\r\n<!DOCTYPE html><html><head><meta charset=utf-8>"));
    assert!(text.contains("<h2>Colorlight Status</h2><table><tr><td>MAC</td><td>02:78:7b:21:ae:53</td></tr><tr><td>IP</td><td>10.11.6.250</td></tr><tr><td>Display</td><td>96x48</td></tr><tr><td>Grid</td><td>1x1 (96x48 virtual)</td></tr><tr><td>Panel</td><td>96x48</td></tr><tr><td>Animation</td><td>Rainbow</td></tr><tr><td>Bitmap frames</td><td>12</td></tr></table><h3>Panels</h3><table><tr><td>J1</td><td>(0,0)</td></tr><tr><td>J2</td><td>-</td></tr>"));
    assert!(text.contains("<tr><td>J6</td><td>-</td></tr></table><h3>Pattern</h3><select id=pat><option>grid</option>"));
    assert!(text.contains("</select> <button onclick=\"fetch('/api/display/pattern',{method:'POST',headers:{'Content-Type':'application/json'},body:JSON.stringify({name:document.getElementById('pat').value})}).then(r=>r.json()).then(j=>{document.getElementById('msg').textContent=j.ok?'Loaded!':'Error'}).catch(()=>{document.getElementById('msg').textContent='Failed'})\">Load</button> <span id=msg></span><h3>API</h3>"));
    assert!(text.ends_with("<li><a href=/api/bitmap/stats>/api/bitmap/stats</a></li></ul></body></html>"));
    assert!(text.len() < RESPONSE_CAPACITY);
}

#[test]
fn layout_answers() {
    let mut ctx = context(96, 4608);
    let text = serve("GET /api/layout HTTP/1.1\r\n\r\n", &mut ctx);
    assert_eq!(text, format!("{}{}", JSON_HEAD, "{\"grid\":\"1x1\",\"panel_width\":96,\"panel_height\":48,\"virtual_width\":96,\"virtual_height\":48,\"panels\":{\"J1\":\"0,0\"}}"));
    let body = "{\"grid\":\"3x2\",\"J2\":\"1,0\",\"J6\":\"2,1\",\"J7\":\"9,9\",\"J3\":\"x\"}";
    let post = format!("POST /api/layout HTTP/1.1\r\nContent-Length: {}\r\n\r\n{}", body.len(), body);
    let text = serve(&post, &mut ctx);
    assert_eq!(text, format!("{}{}", JSON_HEAD, "{\"ok\":true,\"grid\":\"3x2\"}"));
    assert_eq!((ctx.layout.grid_cols, ctx.layout.grid_rows), (3, 2));
    assert_eq!(ctx.layout.assignments[0][0], Some((0, 0)));
    assert_eq!(ctx.layout.assignments[1][0], Some((1, 0)));
    assert_eq!(ctx.layout.assignments[2][0], None);
    assert_eq!(ctx.layout.assignments[5][0], Some((2, 1)));
    let text = serve("GET /api/layout HTTP/1.1\r\n\r\n", &mut ctx);
    assert_eq!(text, format!("{}{}", JSON_HEAD, "{\"grid\":\"3x2\",\"panel_width\":96,\"panel_height\":48,\"virtual_width\":288,\"virtual_height\":96,\"panels\":{\"J1\":\"0,0\",\"J2\":\"1,0\",\"J6\":\"2,1\"}}"));
    let text = serve("POST /api/layout/apply HTTP/1.1\r\n\r\n", &mut ctx);
    assert_eq!(text, format!("{}{}", JSON_HEAD, "{\"ok\":true,\"virtual_width\":288,\"virtual_height\":96}"));
    assert_eq!(ctx.hub75.get_img_param(), (288, 288 * 96));
    assert_eq!(ctx.hub75.get_panel_param(1, 0), (6, 0, 0));
    assert_eq!(ctx.hub75.get_panel_param(5, 0), (12, 3, 0));
}

#[test]
fn layout_post_without_members_changes_nothing() {
    let mut ctx = context(96, 4608);
    let text = serve("POST /api/layout HTTP/1.1\r\n\r\n", &mut ctx);
    assert_eq!(text, format!("{}{}", JSON_HEAD, "{\"ok\":true,\"grid\":\"1x1\"}"));
    assert_eq!(ctx.layout.assignments[0][0], Some((0, 0)));
}

#[test]
fn display_answers() {
    let mut ctx = context(64, 64 * 32);
    let text = serve("GET /api/display HTTP/1.1\r\n\r\n", &mut ctx);
    assert_eq!(text, format!("{}{}", JSON_HEAD, "{\"width\":64,\"height\":32,\"mode\":\"fullcolor\",\"animation\":\"none\"}"));
    ctx.hub75.set_mode(OutputMode::Indexed);
    ctx.animation = Animation::Rainbow { phase: 0 };
    let text = serve("GET /api/display HTTP/1.1\r\n\r\n", &mut ctx);
    assert_eq!(text, format!("{}{}", JSON_HEAD, "{\"width\":64,\"height\":32,\"mode\":\"indexed\",\"animation\":\"rainbow\"}"));
    let text = serve("POST /api/display/on HTTP/1.1\r\n\r\n", &mut ctx);
    assert_eq!(text, format!("{}{}", JSON_HEAD, "{\"ok\":true,\"display\":\"on\"}"));
    assert!(ctx.hub75.is_on());
    let text = serve("POST /api/display/off HTTP/1.1\r\n\r\n", &mut ctx);
    assert_eq!(text, format!("{}{}", JSON_HEAD, "{\"ok\":true,\"display\":\"off\"}"));
    assert!(!ctx.hub75.is_on());
    let mut unset = context(0, 0);
    let text = serve("GET /api/display HTTP/1.1\r\n\r\n", &mut unset);
    assert_eq!(text, format!("{}{}", JSON_HEAD, "{\"width\":0,\"height\":0,\"mode\":\"fullcolor\",\"animation\":\"none\"}"));
}

#[test]
fn pattern_requests() {
    let mut ctx = context(4, 8);
    ctx.hub75.set_mode(OutputMode::Indexed);
    let post = |body: &str| format!("POST /api/display/pattern HTTP/1.1\r\nContent-Length: {}\r\n\r\n{}", body.len(), body);
    let text = serve(&post("{\"name\":\"red\"}"), &mut ctx);
    assert_eq!(text, format!("{}{}", JSON_HEAD, "{\"ok\":true,\"pattern\":\"red\"}"));
    assert_eq!(ctx.hub75.read_img_data(), vec![0x0000FF; 8]);
    assert!(ctx.hub75.is_on());
    assert_eq!(ctx.hub75.get_mode(), OutputMode::FullColor);
    assert_eq!(ctx.animation, Animation::Off);
    let text = serve(&post("{\"name\":\"rainbow_anim\"}"), &mut ctx);
    assert_eq!(text, format!("{}{}", JSON_HEAD, "{\"ok\":true,\"pattern\":\"rainbow_anim\"}"));
    assert_eq!(ctx.animation, Animation::Rainbow { phase: 0 });
    let base = ctx.hub75.display_base();
    let text = serve(&post("{\"name\":\"plaid\"}"), &mut ctx);
    assert_eq!(text, format!("{}{}", BAD_HEAD, "unknown pattern"));
    let text = serve(&post("{\"nam\":\"red\"}"), &mut ctx);
    assert_eq!(text, format!("{}{}", BAD_HEAD, "missing \"name\""));
    assert_eq!(ctx.hub75.display_base(), base);
    assert_eq!(ctx.animation, Animation::Rainbow { phase: 0 });
    let mut unset = context(0, 8);
    let text = serve(&post("{\"name\":\"red\"}"), &mut unset);
    assert_eq!(text, format!("{}{}", BAD_HEAD, "image params not set"));
    let mut flat = context(16, 8);
    let text = serve(&post("{\"name\":\"plaid\"}"), &mut flat);
    assert_eq!(text, format!("{}{}", BAD_HEAD, "image params not set"));
}

#[test]
fn bitmap_stats_answer() {
    let mut ctx = context(4, 8);
    ctx.bitmap_stats.packets_total = 10;
    ctx.bitmap_stats.packets_valid = 7;
    ctx.bitmap_stats.packets_bad_magic = 1;
    ctx.bitmap_stats.packets_bad_header = 2;
    ctx.bitmap_stats.frames_completed = 3;
    ctx.bitmap_stats.last_frame_id = 65535;
    ctx.bitmap_stats.last_chunk_index = 4;
    ctx.bitmap_stats.last_total_chunks = 5;
    ctx.bitmap_stats.last_width = 128;
    ctx.bitmap_stats.last_height = 64;
    ctx.bitmap_stats.last_data_len = 1472;
    let text = serve("GET /api/bitmap/stats HTTP/1.1\r\n\r\n", &mut ctx);
    assert_eq!(text, format!("{}{}", JSON_HEAD, "{\"packets_total\":10,\"packets_valid\":7,\"bad_magic\":1,\"bad_header\":2,\"frames_completed\":3,\"last_frame_id\":65535,\"last_chunk\":\"4/5\",\"last_size\":\"128x64\",\"last_data_len\":1472}"));
}

#[test]
fn unknown_requests_are_not_found() {
    let mut ctx = context(4, 8);
    let text = serve("GET /nothing HTTP/1.1\r\n\r\n", &mut ctx);
    assert_eq!(text, "HTTP/1.1 404 Not Found\r\nConnection: close\r\n\r\nNot Found");
    let text = serve("DELETE / HTTP/1.1\r\n\r\n", &mut ctx);
    assert_eq!(text, "HTTP/1.1 404 Not Found\r\nConnection: close\r\n\r\nNot Found");
}
