//! The pages and answers of the status server.

use crate::bitmap_udp::BitmapStats;
use crate::http::{
    json_get_str, json_get_text, spec_body_bytes, spec_json_get, spec_path_bytes, HttpRequest, Method,
};
use crate::http_response::{
    spec_piece, spec_push, spec_put_all, spec_write, Draft, HttpResponse, Piece, HEAD_BAD_REQUEST,
    HEAD_HTML, HEAD_JSON, NOT_FOUND,
};
use crate::hub75::{Hub75View, OutputMode};
use crate::layout::{
    bytes_equal, parse_grid_spec, parse_pos_spec, spec_apply, spec_parse_grid, spec_parse_pos,
    LayoutConfig, LayoutModel, MAX_OUTPUTS,
};
use crate::menu::{
    same_identity, spec_animation_of, spec_drawn, spec_pattern_outcome, Animation, Context,
    PatternOutcome,
};
use vstd::prelude::*;
use vstd::string::StringSliceAdditionalSpecFns;
use vstd::utf8::valid_utf8;

verus! {

/// What a request asks for.
#[derive(Clone, Copy, Debug, PartialEq, Eq, Structural)]
pub enum Route {
    StatusPage,
    Status,
    LayoutGet,
    LayoutPost,
    LayoutApply,
    DisplayGet,
    DisplayOn,
    DisplayOff,
    DisplayPattern,
    BitmapStats,
    NotFound,
}

pub const PAGE_HEAD: &'static str =
    "<!DOCTYPE html><html><head><meta charset=utf-8><link rel=icon href='data:,'><title>Colorlight</title><style>body{font:14px monospace;margin:20px}td{padding:2px 8px}</style></head><body><h2>Colorlight Status</h2><table>";

pub const PAGE_PANELS: &'static str = "</table><h3>Panels</h3><table>";

pub const PAGE_TAIL: &'static str =
    "</table><h3>Pattern</h3><select id=pat><option>grid</option><option>rainbow</option><option>rainbow_anim</option><option>white</option><option>red</option><option>green</option><option>blue</option></select> <button onclick=\"fetch('/api/display/pattern',{method:'POST',headers:{'Content-Type':'application/json'},body:JSON.stringify({name:document.getElementById('pat').value})}).then(r=>r.json()).then(j=>{document.getElementById('msg').textContent=j.ok?'Loaded!':'Error'}).catch(()=>{document.getElementById('msg').textContent='Failed'})\">Load</button> <span id=msg></span><h3>API</h3><ul><li><a href=/api/status>/api/status</a></li><li><a href=/api/layout>/api/layout</a></li><li><a href=/api/display>/api/display</a></li><li><a href=/api/bitmap/stats>/api/bitmap/stats</a></li></ul></body></html>";

/// The route for a method and the bytes of a path.
pub open spec fn spec_route(method: Method, path: Seq<u8>) -> Route {
    if method == Method::Get && path == "/".spec_bytes() {
        Route::StatusPage
    } else if method == Method::Get && path == "/api/status".spec_bytes() {
        Route::Status
    } else if method == Method::Get && path == "/api/layout".spec_bytes() {
        Route::LayoutGet
    } else if method == Method::Post && path == "/api/layout".spec_bytes() {
        Route::LayoutPost
    } else if method == Method::Post && path == "/api/layout/apply".spec_bytes() {
        Route::LayoutApply
    } else if method == Method::Get && path == "/api/display".spec_bytes() {
        Route::DisplayGet
    } else if method == Method::Post && path == "/api/display/on".spec_bytes() {
        Route::DisplayOn
    } else if method == Method::Post && path == "/api/display/off".spec_bytes() {
        Route::DisplayOff
    } else if method == Method::Post && path == "/api/display/pattern".spec_bytes() {
        Route::DisplayPattern
    } else if method == Method::Get && path == "/api/bitmap/stats".spec_bytes() {
        Route::BitmapStats
    } else {
        Route::NotFound
    }
}

pub fn route(method: Method, path: &str) -> (r: Route)
    ensures
        r == spec_route(method, path.spec_bytes()),
{
    let p = path.as_bytes();
    let get = match method {
        Method::Get => true,
        _ => false,
    };
    let post = match method {
        Method::Post => true,
        _ => false,
    };
    if get && bytes_equal(p, "/".as_bytes()) {
        Route::StatusPage
    } else if get && bytes_equal(p, "/api/status".as_bytes()) {
        Route::Status
    } else if get && bytes_equal(p, "/api/layout".as_bytes()) {
        Route::LayoutGet
    } else if post && bytes_equal(p, "/api/layout".as_bytes()) {
        Route::LayoutPost
    } else if post && bytes_equal(p, "/api/layout/apply".as_bytes()) {
        Route::LayoutApply
    } else if get && bytes_equal(p, "/api/display".as_bytes()) {
        Route::DisplayGet
    } else if post && bytes_equal(p, "/api/display/on".as_bytes()) {
        Route::DisplayOn
    } else if post && bytes_equal(p, "/api/display/off".as_bytes()) {
        Route::DisplayOff
    } else if post && bytes_equal(p, "/api/display/pattern".as_bytes()) {
        Route::DisplayPattern
    } else if get && bytes_equal(p, "/api/bitmap/stats".as_bytes()) {
        Route::BitmapStats
    } else {
        Route::NotFound
    }
}

/// The height of the configured picture as the status shows it: the
/// pixel count over the width, 0 where no width is set.
pub open spec fn spec_shown_height(dev: Hub75View) -> u32 {
    if dev.width > 0 {
        dev.length / (dev.width as u32)
    } else {
        0
    }
}

fn shown_height(width: u16, length: u32) -> (h: u32)
    ensures
        h == (if width > 0 {
            length / (width as u32)
        } else {
            0
        }),
{
    if width > 0 {
        length / (width as u32)
    } else {
        0
    }
}

/// The name of an animation on the page.
pub open spec fn spec_animation_title(animation: Animation) -> &'static str {
    match animation {
        Animation::Off => "None",
        Animation::Rainbow { .. } => "Rainbow",
    }
}

/// The name of an animation in an answer of the interface.
pub open spec fn spec_animation_name(animation: Animation) -> &'static str {
    match animation {
        Animation::Off => "none",
        Animation::Rainbow { .. } => "rainbow",
    }
}

fn animation_title(animation: Animation) -> (name: &'static str)
    ensures
        name == spec_animation_title(animation),
{
    match animation {
        Animation::Off => "None",
        Animation::Rainbow { .. } => "Rainbow",
    }
}

fn animation_name(animation: Animation) -> (name: &'static str)
    ensures
        name == spec_animation_name(animation),
{
    match animation {
        Animation::Off => "none",
        Animation::Rainbow { .. } => "rainbow",
    }
}

/// The pieces of a hardware address: six bytes in hexadecimal with colons
/// between them, between `before` and `after`.
pub open spec fn spec_mac_pieces(before: &'static str, mac: [u8; 6], after: &'static str) -> Seq<Piece<'static>> {
    seq![
        Piece::Text(before),
        Piece::Hex2(mac[0]),
        Piece::Text(":"),
        Piece::Hex2(mac[1]),
        Piece::Text(":"),
        Piece::Hex2(mac[2]),
        Piece::Text(":"),
        Piece::Hex2(mac[3]),
        Piece::Text(":"),
        Piece::Hex2(mac[4]),
        Piece::Text(":"),
        Piece::Hex2(mac[5]),
        Piece::Text(after),
    ]
}

fn write_mac(resp: &mut HttpResponse, before: &'static str, mac: &[u8; 6], after: &'static str)
    ensures
        final(resp)@ == spec_write(old(resp)@, spec_mac_pieces(before, *mac, after)),
{
    let pieces: [Piece; 13] = [
        Piece::Text(before),
        Piece::Hex2(mac[0]),
        Piece::Text(":"),
        Piece::Hex2(mac[1]),
        Piece::Text(":"),
        Piece::Hex2(mac[2]),
        Piece::Text(":"),
        Piece::Hex2(mac[3]),
        Piece::Text(":"),
        Piece::Hex2(mac[4]),
        Piece::Text(":"),
        Piece::Hex2(mac[5]),
        Piece::Text(after),
    ];
    assert(pieces@ =~= spec_mac_pieces(before, *mac, after));
    resp.write(pieces.as_slice());
}

/// The pieces of an internet address: four numbers with dots between
/// them, between `before` and `after`.
pub open spec fn spec_ip_pieces(before: &'static str, ip: [u8; 4], after: &'static str) -> Seq<Piece<'static>> {
    seq![
        Piece::Text(before),
        Piece::Dec(ip[0] as u64),
        Piece::Text("."),
        Piece::Dec(ip[1] as u64),
        Piece::Text("."),
        Piece::Dec(ip[2] as u64),
        Piece::Text("."),
        Piece::Dec(ip[3] as u64),
        Piece::Text(after),
    ]
}

fn write_ip(resp: &mut HttpResponse, before: &'static str, ip: &[u8; 4], after: &'static str)
    ensures
        final(resp)@ == spec_write(old(resp)@, spec_ip_pieces(before, *ip, after)),
{
    let pieces: [Piece; 9] = [
        Piece::Text(before),
        Piece::Dec(ip[0] as u64),
        Piece::Text("."),
        Piece::Dec(ip[1] as u64),
        Piece::Text("."),
        Piece::Dec(ip[2] as u64),
        Piece::Text("."),
        Piece::Dec(ip[3] as u64),
        Piece::Text(after),
    ];
    assert(pieces@ =~= spec_ip_pieces(before, *ip, after));
    resp.write(pieces.as_slice());
}

/// The pieces of one number between two texts.
pub open spec fn spec_one(a: &'static str, x: u64, b: &'static str) -> Seq<Piece<'static>> {
    seq![Piece::Text(a), Piece::Dec(x), Piece::Text(b)]
}

fn write_one(resp: &mut HttpResponse, a: &'static str, x: u64, b: &'static str)
    ensures
        final(resp)@ == spec_write(old(resp)@, spec_one(a, x, b)),
{
    let pieces: [Piece; 3] = [Piece::Text(a), Piece::Dec(x), Piece::Text(b)];
    assert(pieces@ =~= spec_one(a, x, b));
    resp.write(pieces.as_slice());
}

/// The pieces of two numbers between three texts.
pub open spec fn spec_two(a: &'static str, x: u64, b: &'static str, y: u64, c: &'static str) -> Seq<Piece<'static>> {
    seq![Piece::Text(a), Piece::Dec(x), Piece::Text(b), Piece::Dec(y), Piece::Text(c)]
}

fn write_two(
    resp: &mut HttpResponse,
    a: &'static str,
    x: u64,
    b: &'static str,
    y: u64,
    c: &'static str,
)
    ensures
        final(resp)@ == spec_write(old(resp)@, spec_two(a, x, b, y, c)),
{
    let pieces: [Piece; 5] = [
        Piece::Text(a),
        Piece::Dec(x),
        Piece::Text(b),
        Piece::Dec(y),
        Piece::Text(c),
    ];
    assert(pieces@ =~= spec_two(a, x, b, y, c));
    resp.write(pieces.as_slice());
}

/// The pieces of four numbers between five texts.
pub open spec fn spec_four(
    a: &'static str,
    w: u64,
    b: &'static str,
    x: u64,
    c: &'static str,
    y: u64,
    d: &'static str,
    z: u64,
    e: &'static str,
) -> Seq<Piece<'static>> {
    seq![
        Piece::Text(a),
        Piece::Dec(w),
        Piece::Text(b),
        Piece::Dec(x),
        Piece::Text(c),
        Piece::Dec(y),
        Piece::Text(d),
        Piece::Dec(z),
        Piece::Text(e),
    ]
}

fn write_four(
    resp: &mut HttpResponse,
    a: &'static str,
    w: u64,
    b: &'static str,
    x: u64,
    c: &'static str,
    y: u64,
    d: &'static str,
    z: u64,
    e: &'static str,
)
    ensures
        final(resp)@ == spec_write(old(resp)@, spec_four(a, w, b, x, c, y, d, z, e)),
{
    let pieces: [Piece; 9] = [
        Piece::Text(a),
        Piece::Dec(w),
        Piece::Text(b),
        Piece::Dec(x),
        Piece::Text(c),
        Piece::Dec(y),
        Piece::Text(d),
        Piece::Dec(z),
        Piece::Text(e),
    ];
    assert(pieces@ =~= spec_four(a, w, b, x, c, y, d, z, e));
    resp.write(pieces.as_slice());
}

/// The pieces of texts alone.
pub open spec fn spec_texts(a: &'static str, b: &'static str, c: &'static str) -> Seq<Piece<'static>> {
    seq![Piece::Text(a), Piece::Text(b), Piece::Text(c)]
}

fn write_texts(resp: &mut HttpResponse, a: &'static str, b: &'static str, c: &'static str)
    ensures
        final(resp)@ == spec_write(old(resp)@, spec_texts(a, b, c)),
{
    let pieces: [Piece; 3] = [Piece::Text(a), Piece::Text(b), Piece::Text(c)];
    assert(pieces@ =~= spec_texts(a, b, c));
    resp.write(pieces.as_slice());
}

/// The virtual width of a layout as a number to show.
pub open spec fn spec_vw(l: LayoutConfig) -> u64 {
    l.panel_width.wrapping_mul(l.grid_cols as u16) as u64
}

/// The virtual height of a layout as a number to show.
pub open spec fn spec_vh(l: LayoutConfig) -> u64 {
    l.panel_height.wrapping_mul(l.grid_rows as u16) as u64
}

/// The bytes of the page after the rows of the first `upto` connectors:
/// the grid cell of the first panel behind each, or a dash.
pub open spec fn spec_page_panels(bytes: Seq<u8>, l: LayoutConfig, upto: int) -> Seq<u8>
    decreases upto,
{
    if upto <= 0 {
        bytes
    } else {
        let before = spec_page_panels(bytes, l, upto - 1);
        match l.assignments[upto - 1][0] {
            Some((col, row)) => spec_write(
                before,
                seq![
                    Piece::Text("<tr><td>J"),
                    Piece::Dec(upto as u64),
                    Piece::Text("</td><td>("),
                    Piece::Dec(col as u64),
                    Piece::Text(","),
                    Piece::Dec(row as u64),
                    Piece::Text(")</td></tr>"),
                ],
            ),
            None => spec_write(before, spec_one("<tr><td>J", upto as u64, "</td><td>-</td></tr>")),
        }
    }
}

/// The bytes of the status page.
pub open spec fn spec_page_status(ctx: Context, ip: [u8; 4]) -> Seq<u8> {
    let dev = ctx.hub75@;
    let l = ctx.layout;
    let b0 = spec_push(Seq::empty(), HEAD_HTML.spec_bytes());
    let b1 = spec_write(b0, seq![Piece::Text(PAGE_HEAD)]);
    let b2 = spec_write(b1, spec_mac_pieces("<tr><td>MAC</td><td>", ctx.mac, "</td></tr>"));
    let b3 = spec_write(b2, spec_ip_pieces("<tr><td>IP</td><td>", ip, "</td></tr>"));
    let b4 = spec_write(
        b3,
        spec_two(
            "<tr><td>Display</td><td>",
            dev.width as u64,
            "x",
            spec_shown_height(dev) as u64,
            "</td></tr>",
        ),
    );
    let b5 = spec_write(
        b4,
        spec_four(
            "<tr><td>Grid</td><td>",
            l.grid_cols as u64,
            "x",
            l.grid_rows as u64,
            " (",
            spec_vw(l),
            "x",
            spec_vh(l),
            " virtual)</td></tr>",
        ),
    );
    let b6 = spec_write(
        b5,
        spec_two(
            "<tr><td>Panel</td><td>",
            l.panel_width as u64,
            "x",
            l.panel_height as u64,
            "</td></tr>",
        ),
    );
    let b7 = spec_write(
        b6,
        spec_texts(
            "<tr><td>Animation</td><td>",
            spec_animation_title(ctx.animation),
            "</td></tr>",
        ),
    );
    let b8 = spec_write(
        b7,
        spec_one(
            "<tr><td>Bitmap frames</td><td>",
            ctx.bitmap_stats.frames_completed as u64,
            "</td></tr>",
        ),
    );
    let b9 = spec_write(b8, seq![Piece::Text(PAGE_PANELS)]);
    let b10 = spec_page_panels(b9, l, MAX_OUTPUTS as int);
    spec_write(b10, seq![Piece::Text(PAGE_TAIL)])
}

fn write_text(resp: &mut HttpResponse, text: &'static str)
    ensures
        final(resp)@ == spec_write(old(resp)@, seq![Piece::Text(text)]),
{
    let pieces: [Piece; 1] = [Piece::Text(text)];
    assert(pieces@ =~= seq![Piece::Text(text)]);
    resp.write(pieces.as_slice());
}

/// Writes the status page.
pub fn page_status(resp: &mut HttpResponse, ctx: &Context, ip: [u8; 4])
    ensures
        final(resp)@ == spec_page_status(*ctx, ip),
{
    resp.ok_html();
    let (w, len) = ctx.hub75.get_img_param();
    let h = shown_height(w, len);
    write_text(resp, PAGE_HEAD);
    write_mac(resp, "<tr><td>MAC</td><td>", &ctx.mac, "</td></tr>");
    write_ip(resp, "<tr><td>IP</td><td>", &ip, "</td></tr>");
    write_two(resp, "<tr><td>Display</td><td>", w as u64, "x", h as u64, "</td></tr>");
    write_four(
        resp,
        "<tr><td>Grid</td><td>",
        ctx.layout.grid_cols as u64,
        "x",
        ctx.layout.grid_rows as u64,
        " (",
        ctx.layout.virtual_width() as u64,
        "x",
        ctx.layout.virtual_height() as u64,
        " virtual)</td></tr>",
    );
    write_two(
        resp,
        "<tr><td>Panel</td><td>",
        ctx.layout.panel_width as u64,
        "x",
        ctx.layout.panel_height as u64,
        "</td></tr>",
    );
    write_texts(resp, "<tr><td>Animation</td><td>", animation_title(ctx.animation), "</td></tr>");
    write_one(
        resp,
        "<tr><td>Bitmap frames</td><td>",
        ctx.bitmap_stats.frames_completed as u64,
        "</td></tr>",
    );
    write_text(resp, PAGE_PANELS);
    let ghost start = resp@;
    let mut i: usize = 0;
    while i < MAX_OUTPUTS
        invariant
            i <= MAX_OUTPUTS,
            resp@ == spec_page_panels(start, ctx.layout, i as int),
        decreases MAX_OUTPUTS - i,
    {
        match ctx.layout.assignments[i][0] {
            Some((col, row)) => {
                let pieces: [Piece; 7] = [
                    Piece::Text("<tr><td>J"),
                    Piece::Dec((i + 1) as u64),
                    Piece::Text("</td><td>("),
                    Piece::Dec(col as u64),
                    Piece::Text(","),
                    Piece::Dec(row as u64),
                    Piece::Text(")</td></tr>"),
                ];
                assert(pieces@ =~= seq![
                    Piece::Text("<tr><td>J"),
                    Piece::Dec((i + 1) as u64),
                    Piece::Text("</td><td>("),
                    Piece::Dec(col as u64),
                    Piece::Text(","),
                    Piece::Dec(row as u64),
                    Piece::Text(")</td></tr>"),
                ]);
                resp.write(pieces.as_slice());
            },
            None => {
                write_one(resp, "<tr><td>J", (i + 1) as u64, "</td><td>-</td></tr>");
            },
        }
        i += 1;
    }
    write_text(resp, PAGE_TAIL);
}

/// The bytes of the answer with the sign's status.
pub open spec fn spec_api_status(ctx: Context, ip: [u8; 4]) -> Seq<u8> {
    let dev = ctx.hub75@;
    let l = ctx.layout;
    let b0 = spec_push(Seq::empty(), HEAD_JSON.spec_bytes());
    let b1 = spec_write(b0, spec_mac_pieces("{\"mac\":\"", ctx.mac, "\","));
    let b2 = spec_write(b1, spec_ip_pieces("\"ip\":\"", ip, "\","));
    let b3 = spec_write(
        b2,
        spec_two(
            "\"display_width\":",
            dev.width as u64,
            ",\"display_height\":",
            spec_shown_height(dev) as u64,
            ",",
        ),
    );
    let b4 = spec_write(
        b3,
        spec_four(
            "\"grid\":\"",
            l.grid_cols as u64,
            "x",
            l.grid_rows as u64,
            "\",\"virtual_width\":",
            spec_vw(l),
            ",\"virtual_height\":",
            spec_vh(l),
            ",",
        ),
    );
    let b5 = spec_write(
        b4,
        spec_two(
            "\"panel_width\":",
            l.panel_width as u64,
            ",\"panel_height\":",
            l.panel_height as u64,
            ",",
        ),
    );
    spec_write(
        b5,
        seq![
            Piece::Text("\"animation\":\""),
            Piece::Text(spec_animation_name(ctx.animation)),
            Piece::Text("\",\"bitmap_frames\":"),
            Piece::Dec(ctx.bitmap_stats.frames_completed as u64),
            Piece::Text("}"),
        ],
    )
}

/// Writes the answer with the sign's status.
pub fn api_status(resp: &mut HttpResponse, ctx: &Context, ip: [u8; 4])
    ensures
        final(resp)@ == spec_api_status(*ctx, ip),
{
    resp.ok_json();
    let (w, len) = ctx.hub75.get_img_param();
    let h = shown_height(w, len);
    write_mac(resp, "{\"mac\":\"", &ctx.mac, "\",");
    write_ip(resp, "\"ip\":\"", &ip, "\",");
    write_two(resp, "\"display_width\":", w as u64, ",\"display_height\":", h as u64, ",");
    write_four(
        resp,
        "\"grid\":\"",
        ctx.layout.grid_cols as u64,
        "x",
        ctx.layout.grid_rows as u64,
        "\",\"virtual_width\":",
        ctx.layout.virtual_width() as u64,
        ",\"virtual_height\":",
        ctx.layout.virtual_height() as u64,
        ",",
    );
    write_two(
        resp,
        "\"panel_width\":",
        ctx.layout.panel_width as u64,
        ",\"panel_height\":",
        ctx.layout.panel_height as u64,
        ",",
    );
    let pieces: [Piece; 5] = [
        Piece::Text("\"animation\":\""),
        Piece::Text(animation_name(ctx.animation)),
        Piece::Text("\",\"bitmap_frames\":"),
        Piece::Dec(ctx.bitmap_stats.frames_completed as u64),
        Piece::Text("}"),
    ];
    assert(pieces@ =~= seq![
        Piece::Text("\"animation\":\""),
        Piece::Text(spec_animation_name(ctx.animation)),
        Piece::Text("\",\"bitmap_frames\":"),
        Piece::Dec(ctx.bitmap_stats.frames_completed as u64),
        Piece::Text("}"),
    ]);
    resp.write(pieces.as_slice());
}

/// The number of the first `upto` connectors whose first panel has a
/// grid cell.
pub open spec fn spec_assigned_before(l: LayoutConfig, upto: int) -> nat
    decreases upto,
{
    if upto <= 0 {
        0
    } else {
        spec_assigned_before(l, upto - 1) + if l.assignments[upto - 1][0] is Some {
            1nat
        } else {
            0nat
        }
    }
}

/// The bytes of the layout answer after the members of the first `upto`
/// connectors: for each assigned connector its name and grid cell, with
/// commas between the members.
pub open spec fn spec_layout_members(bytes: Seq<u8>, l: LayoutConfig, upto: int) -> Seq<u8>
    decreases upto,
{
    if upto <= 0 {
        bytes
    } else {
        let before = spec_layout_members(bytes, l, upto - 1);
        match l.assignments[upto - 1][0] {
            Some((col, row)) => {
                let parted = if spec_assigned_before(l, upto - 1) > 0 {
                    spec_write(before, seq![Piece::Text(",")])
                } else {
                    before
                };
                spec_write(
                    parted,
                    seq![
                        Piece::Text("\"J"),
                        Piece::Dec(upto as u64),
                        Piece::Text("\":\""),
                        Piece::Dec(col as u64),
                        Piece::Text(","),
                        Piece::Dec(row as u64),
                        Piece::Text("\""),
                    ],
                )
            },
            None => before,
        }
    }
}

/// The bytes of the answer with the layout.
pub open spec fn spec_api_layout_get(ctx: Context) -> Seq<u8> {
    let l = ctx.layout;
    let b0 = spec_push(Seq::empty(), HEAD_JSON.spec_bytes());
    let b1 = spec_write(
        b0,
        spec_four(
            "{\"grid\":\"",
            l.grid_cols as u64,
            "x",
            l.grid_rows as u64,
            "\",\"panel_width\":",
            l.panel_width as u64,
            ",\"panel_height\":",
            l.panel_height as u64,
            ",",
        ),
    );
    let b2 = spec_write(
        b1,
        spec_two("\"virtual_width\":", spec_vw(l), ",\"virtual_height\":", spec_vh(l), ",\"panels\":{"),
    );
    let b3 = spec_layout_members(b2, l, MAX_OUTPUTS as int);
    spec_write(b3, seq![Piece::Text("}}")])
}

/// Writes the answer with the layout.
pub fn api_layout_get(resp: &mut HttpResponse, ctx: &Context)
    ensures
        final(resp)@ == spec_api_layout_get(*ctx),
{
    resp.ok_json();
    write_four(
        resp,
        "{\"grid\":\"",
        ctx.layout.grid_cols as u64,
        "x",
        ctx.layout.grid_rows as u64,
        "\",\"panel_width\":",
        ctx.layout.panel_width as u64,
        ",\"panel_height\":",
        ctx.layout.panel_height as u64,
        ",",
    );
    write_two(
        resp,
        "\"virtual_width\":",
        ctx.layout.virtual_width() as u64,
        ",\"virtual_height\":",
        ctx.layout.virtual_height() as u64,
        ",\"panels\":{",
    );
    let ghost start = resp@;
    let mut first = true;
    let mut i: usize = 0;
    while i < MAX_OUTPUTS
        invariant
            i <= MAX_OUTPUTS,
            first == (spec_assigned_before(ctx.layout, i as int) == 0),
            resp@ == spec_layout_members(start, ctx.layout, i as int),
        decreases MAX_OUTPUTS - i,
    {
        match ctx.layout.assignments[i][0] {
            Some((col, row)) => {
                if !first {
                    write_text(resp, ",");
                }
                let pieces: [Piece; 7] = [
                    Piece::Text("\"J"),
                    Piece::Dec((i + 1) as u64),
                    Piece::Text("\":\""),
                    Piece::Dec(col as u64),
                    Piece::Text(","),
                    Piece::Dec(row as u64),
                    Piece::Text("\""),
                ];
                assert(pieces@ =~= seq![
                    Piece::Text("\"J"),
                    Piece::Dec((i + 1) as u64),
                    Piece::Text("\":\""),
                    Piece::Dec(col as u64),
                    Piece::Text(","),
                    Piece::Dec(row as u64),
                    Piece::Text("\""),
                ]);
                resp.write(pieces.as_slice());
                first = false;
            },
            None => {},
        }
        i += 1;
    }
    write_text(resp, "}}");
}

/// The bytes of the answer with the display's settings.
pub open spec fn spec_api_display_get(ctx: Context) -> Seq<u8> {
    let dev = ctx.hub75@;
    spec_write(
        spec_push(Seq::empty(), HEAD_JSON.spec_bytes()),
        seq![
            Piece::Text("{\"width\":"),
            Piece::Dec(dev.width as u64),
            Piece::Text(",\"height\":"),
            Piece::Dec(spec_shown_height(dev) as u64),
            Piece::Text(",\"mode\":\""),
            Piece::Text(
                if dev.indexed {
                    "indexed"
                } else {
                    "fullcolor"
                },
            ),
            Piece::Text("\",\"animation\":\""),
            Piece::Text(spec_animation_name(ctx.animation)),
            Piece::Text("\"}"),
        ],
    )
}

/// Writes the answer with the display's settings.
pub fn api_display_get(resp: &mut HttpResponse, ctx: &Context)
    ensures
        final(resp)@ == spec_api_display_get(*ctx),
{
    resp.ok_json();
    let (w, len) = ctx.hub75.get_img_param();
    let h = shown_height(w, len);
    let mode: &'static str = match ctx.hub75.get_mode() {
        OutputMode::FullColor => "fullcolor",
        OutputMode::Indexed => "indexed",
    };
    let pieces: [Piece; 9] = [
        Piece::Text("{\"width\":"),
        Piece::Dec(w as u64),
        Piece::Text(",\"height\":"),
        Piece::Dec(h as u64),
        Piece::Text(",\"mode\":\""),
        Piece::Text(mode),
        Piece::Text("\",\"animation\":\""),
        Piece::Text(animation_name(ctx.animation)),
        Piece::Text("\"}"),
    ];
    assert(pieces@ =~= seq![
        Piece::Text("{\"width\":"),
        Piece::Dec(w as u64),
        Piece::Text(",\"height\":"),
        Piece::Dec(h as u64),
        Piece::Text(",\"mode\":\""),
        Piece::Text(mode),
        Piece::Text("\",\"animation\":\""),
        Piece::Text(spec_animation_name(ctx.animation)),
        Piece::Text("\"}"),
    ]);
    resp.write(pieces.as_slice());
}

/// The bytes of the answer with the receiver's statistics.
pub open spec fn spec_api_bitmap_stats(s: BitmapStats) -> Seq<u8> {
    let b0 = spec_push(Seq::empty(), HEAD_JSON.spec_bytes());
    let b1 = spec_write(
        b0,
        spec_two(
            "{\"packets_total\":",
            s.packets_total as u64,
            ",\"packets_valid\":",
            s.packets_valid as u64,
            ",",
        ),
    );
    let b2 = spec_write(
        b1,
        spec_two(
            "\"bad_magic\":",
            s.packets_bad_magic as u64,
            ",\"bad_header\":",
            s.packets_bad_header as u64,
            ",",
        ),
    );
    let b3 = spec_write(
        b2,
        spec_two(
            "\"frames_completed\":",
            s.frames_completed as u64,
            ",\"last_frame_id\":",
            s.last_frame_id as u64,
            ",",
        ),
    );
    spec_write(
        b3,
        seq![
            Piece::Text("\"last_chunk\":\""),
            Piece::Dec(s.last_chunk_index as u64),
            Piece::Text("/"),
            Piece::Dec(s.last_total_chunks as u64),
            Piece::Text("\",\"last_size\":\""),
            Piece::Dec(s.last_width as u64),
            Piece::Text("x"),
            Piece::Dec(s.last_height as u64),
            Piece::Text("\",\"last_data_len\":"),
            Piece::Dec(s.last_data_len as u64),
            Piece::Text("}"),
        ],
    )
}

/// Writes the answer with the receiver's statistics.
pub fn api_bitmap_stats(resp: &mut HttpResponse, ctx: &Context)
    ensures
        final(resp)@ == spec_api_bitmap_stats(ctx.bitmap_stats),
{
    resp.ok_json();
    let s = &ctx.bitmap_stats;
    write_two(
        resp,
        "{\"packets_total\":",
        s.packets_total as u64,
        ",\"packets_valid\":",
        s.packets_valid as u64,
        ",",
    );
    write_two(
        resp,
        "\"bad_magic\":",
        s.packets_bad_magic as u64,
        ",\"bad_header\":",
        s.packets_bad_header as u64,
        ",",
    );
    write_two(
        resp,
        "\"frames_completed\":",
        s.frames_completed as u64,
        ",\"last_frame_id\":",
        s.last_frame_id as u64,
        ",",
    );
    let pieces: [Piece; 11] = [
        Piece::Text("\"last_chunk\":\""),
        Piece::Dec(s.last_chunk_index as u64),
        Piece::Text("/"),
        Piece::Dec(s.last_total_chunks as u64),
        Piece::Text("\",\"last_size\":\""),
        Piece::Dec(s.last_width as u64),
        Piece::Text("x"),
        Piece::Dec(s.last_height as u64),
        Piece::Text("\",\"last_data_len\":"),
        Piece::Dec(s.last_data_len as u64),
        Piece::Text("}"),
    ];
    assert(pieces@ =~= seq![
        Piece::Text("\"last_chunk\":\""),
        Piece::Dec(s.last_chunk_index as u64),
        Piece::Text("/"),
        Piece::Dec(s.last_total_chunks as u64),
        Piece::Text("\",\"last_size\":\""),
        Piece::Dec(s.last_width as u64),
        Piece::Text("x"),
        Piece::Dec(s.last_height as u64),
        Piece::Text("\",\"last_data_len\":"),
        Piece::Dec(s.last_data_len as u64),
        Piece::Text("}"),
    ]);
    resp.write(pieces.as_slice());
}

/// The body of a request as text: its bytes, or nothing where they are
/// not valid UTF-8.
pub open spec fn spec_body_text(bytes: Seq<u8>) -> Seq<u8> {
    if valid_utf8(spec_body_bytes(bytes)) {
        spec_body_bytes(bytes)
    } else {
        "".spec_bytes()
    }
}

/// The path of a request as text: `/` where the method is unknown or the
/// path is not valid UTF-8.
pub open spec fn spec_path_text(bytes: Seq<u8>) -> Seq<u8> {
    match spec_path_bytes(bytes) {
        Some(p) => if valid_utf8(p) {
            p
        } else {
            "/".spec_bytes()
        },
        None => "/".spec_bytes(),
    }
}

/// The layout after the grid size in `body` was taken over, if `body`
/// names one that can be read.
pub open spec fn spec_posted_grid(l: LayoutModel, body: Seq<u8>) -> LayoutModel {
    match spec_json_get(body, "grid".spec_bytes()) {
        Some(text) => match spec_parse_grid(text) {
            Some((cols, rows)) => LayoutModel { grid_cols: cols, grid_rows: rows, ..l },
            None => l,
        },
        None => l,
    }
}

/// The layout after the members `J1` to `J<upto>` of `body` were taken
/// over: each that names a grid cell gives it to the first panel behind
/// its connector.
pub open spec fn spec_posted_panels(l: LayoutModel, body: Seq<u8>, upto: int) -> LayoutModel
    decreases upto,
{
    if upto <= 0 {
        l
    } else {
        let before = spec_posted_panels(l, body, upto - 1);
        match spec_json_get(body, seq![74u8, (48 + upto) as u8]) {
            Some(text) => match spec_parse_pos(text) {
                Some(cell) => before.assign(upto - 1, 0, cell),
                None => before,
            },
            None => before,
        }
    }
}

/// The layout after the request body `body` was taken over.
pub open spec fn spec_posted_layout(l: LayoutModel, body: Seq<u8>) -> LayoutModel {
    spec_posted_panels(spec_posted_grid(l, body), body, MAX_OUTPUTS as int)
}

/// The bytes of the answer to a new layout.
pub open spec fn spec_api_layout_post(l: LayoutModel) -> Seq<u8> {
    spec_write(
        spec_push(Seq::empty(), HEAD_JSON.spec_bytes()),
        spec_two("{\"ok\":true,\"grid\":\"", l.grid_cols as u64, "x", l.grid_rows as u64, "\"}"),
    )
}

fn set_first_panel(layout: &mut LayoutConfig, output: usize, cell: (u8, u8))
    requires
        output < MAX_OUTPUTS,
    ensures
        final(layout)@ == old(layout)@.assign(output as int, 0, cell),
{
    layout.assignments[output][0] = Some(cell);
    assert(layout@.assignments =~~= old(layout)@.assign(output as int, 0, cell).assignments);
}

/// Takes over the layout in the body of the request.
pub fn api_layout_post(req: &HttpRequest, resp: &mut HttpResponse, ctx: &mut Context)
    requires
        req.wf(),
    ensures
        final(ctx).layout@ == spec_posted_layout(old(ctx).layout@, spec_body_text(req@.bytes)),
        final(resp)@ == spec_api_layout_post(final(ctx).layout@),
        final(ctx).hub75 == old(ctx).hub75,
        final(ctx).animation == old(ctx).animation,
        same_identity(*final(ctx), *old(ctx)),
{
    let body = req.body_str().as_bytes();
    match json_get_text(body, "grid".as_bytes()) {
        Some(grid) => match parse_grid_spec(grid) {
            Some((cols, rows)) => {
                ctx.layout.grid_cols = cols;
                ctx.layout.grid_rows = rows;
            },
            None => {},
        },
        None => {},
    }
    let ghost start = ctx.layout@;
    let mut i: u8 = 1;
    while i <= 6
        invariant
            1 <= i <= 7,
            body@ == spec_body_text(req@.bytes),
            start == spec_posted_grid(old(ctx).layout@, body@),
            ctx.layout@ == spec_posted_panels(start, body@, i - 1),
            ctx.hub75 == old(ctx).hub75,
            ctx.animation == old(ctx).animation,
            same_identity(*ctx, *old(ctx)),
        decreases 7 - i,
    {
        let key: [u8; 2] = [74, 48 + i];
        assert(key@ =~= seq![74u8, (48 + i) as u8]);
        match json_get_text(body, key.as_slice()) {
            Some(pos) => match parse_pos_spec(pos) {
                Some(cell) => {
                    set_first_panel(&mut ctx.layout, (i - 1) as usize, cell);
                },
                None => {},
            },
            None => {},
        }
        i += 1;
    }
    resp.ok_json();
    write_two(
        resp,
        "{\"ok\":true,\"grid\":\"",
        ctx.layout.grid_cols as u64,
        "x",
        ctx.layout.grid_rows as u64,
        "\"}",
    );
}

/// The bytes of the answer to the request to apply the layout.
pub open spec fn spec_api_layout_apply(l: LayoutConfig) -> Seq<u8> {
    spec_write(
        spec_push(Seq::empty(), HEAD_JSON.spec_bytes()),
        spec_two("{\"ok\":true,\"virtual_width\":", spec_vw(l), ",\"virtual_height\":", spec_vh(l), "}"),
    )
}

/// Configures the device for the layout.
pub fn api_layout_apply(resp: &mut HttpResponse, ctx: &mut Context)
    requires
        old(ctx).hub75.wf(),
    ensures
        final(ctx).hub75.wf(),
        final(ctx).hub75@ == spec_apply(old(ctx).layout, old(ctx).hub75@),
        final(resp)@ == spec_api_layout_apply(old(ctx).layout),
        final(ctx).layout == old(ctx).layout,
        final(ctx).animation == old(ctx).animation,
        same_identity(*final(ctx), *old(ctx)),
{
    ctx.layout.apply(&mut ctx.hub75);
    resp.ok_json();
    write_two(
        resp,
        "{\"ok\":true,\"virtual_width\":",
        ctx.layout.virtual_width() as u64,
        ",\"virtual_height\":",
        ctx.layout.virtual_height() as u64,
        "}",
    );
}

/// The bytes of the answer to a request to switch the scan.
pub open spec fn spec_api_display_switch(on: bool) -> Seq<u8> {
    spec_write(
        spec_push(Seq::empty(), HEAD_JSON.spec_bytes()),
        seq![
            Piece::Text(
                if on {
                    "{\"ok\":true,\"display\":\"on\"}"
                } else {
                    "{\"ok\":true,\"display\":\"off\"}"
                },
            ),
        ],
    )
}

/// Switches the scan on.
pub fn api_display_on(resp: &mut HttpResponse, ctx: &mut Context)
    ensures
        final(ctx).hub75@ == (Hub75View { enabled: true, ..old(ctx).hub75@ }),
        final(ctx).hub75.inv() == old(ctx).hub75.inv(),
        final(resp)@ == spec_api_display_switch(true),
        final(ctx).layout == old(ctx).layout,
        final(ctx).animation == old(ctx).animation,
        same_identity(*final(ctx), *old(ctx)),
{
    ctx.hub75.on();
    resp.ok_json();
    write_text(resp, "{\"ok\":true,\"display\":\"on\"}");
}

/// Switches the scan off.
pub fn api_display_off(resp: &mut HttpResponse, ctx: &mut Context)
    ensures
        final(ctx).hub75@ == (Hub75View { enabled: false, ..old(ctx).hub75@ }),
        final(ctx).hub75.inv() == old(ctx).hub75.inv(),
        final(resp)@ == spec_api_display_switch(false),
        final(ctx).layout == old(ctx).layout,
        final(ctx).animation == old(ctx).animation,
        same_identity(*final(ctx), *old(ctx)),
{
    ctx.hub75.off();
    resp.ok_json();
    write_text(resp, "{\"ok\":true,\"display\":\"off\"}");
}

/// The bytes of the answer that refuses a request with the reason `msg`.
pub open spec fn spec_bad_request(msg: &'static str) -> Seq<u8> {
    spec_push(spec_push(Seq::empty(), HEAD_BAD_REQUEST.spec_bytes()), msg.spec_bytes())
}

/// The bytes of the answer to a request for a test picture with the body
/// `body`, on a device that is configured as `dev`.
pub open spec fn spec_api_display_pattern(dev: Hub75View, body: Seq<u8>) -> Seq<u8> {
    match spec_json_get(body, "name".spec_bytes()) {
        None => spec_bad_request("missing \"name\""),
        Some(name) => match spec_pattern_outcome(dev, name, false) {
            PatternOutcome::NoSize => spec_bad_request("image params not set"),
            PatternOutcome::UnknownName => spec_bad_request("unknown pattern"),
            PatternOutcome::Shown(_) => (Draft {
                bytes: spec_push(Seq::empty(), HEAD_JSON.spec_bytes()),
                ok: true,
            }).put("{\"ok\":true,\"pattern\":\"".spec_bytes()).put(name).put(
                "\"}".spec_bytes(),
            ).bytes,
        },
    }
}

/// The picture that a request with the body `body` puts on display, if
/// any.
pub open spec fn spec_requested_pattern(dev: Hub75View, body: Seq<u8>) -> Option<crate::patterns::Pattern> {
    match spec_json_get(body, "name".spec_bytes()) {
        None => None,
        Some(name) => match spec_pattern_outcome(dev, name, false) {
            PatternOutcome::Shown(kind) => Some(kind),
            _ => None,
        },
    }
}

/// Shows the test picture that the body of the request names.
pub fn api_display_pattern(req: &HttpRequest, resp: &mut HttpResponse, ctx: &mut Context)
    requires
        req.wf(),
        old(ctx).hub75.wf(),
    ensures
        final(ctx).hub75.wf(),
        final(resp)@ == spec_api_display_pattern(old(ctx).hub75@, spec_body_text(req@.bytes)),
        match spec_requested_pattern(old(ctx).hub75@, spec_body_text(req@.bytes)) {
            Some(kind) => {
                &&& final(ctx).hub75@ == spec_drawn(old(ctx).hub75@, kind).presented()
                &&& final(ctx).animation == spec_animation_of(kind)
            },
            None => final(ctx).hub75@ == old(ctx).hub75@ && final(ctx).animation == old(
                ctx,
            ).animation,
        },
        final(ctx).layout == old(ctx).layout,
        same_identity(*final(ctx), *old(ctx)),
{
    let body = req.body_str();
    let name = match json_get_str(body, "name") {
        Some(name) => name,
        None => {
            resp.bad_request("missing \"name\"");
            return ;
        },
    };
    match ctx.show_pattern(name.as_bytes(), false) {
        PatternOutcome::NoSize => {
            resp.bad_request("image params not set");
        },
        PatternOutcome::UnknownName => {
            resp.bad_request("unknown pattern");
        },
        PatternOutcome::Shown(_) => {
            resp.ok_json();
            let pieces: [Piece; 3] = [
                Piece::Text("{\"ok\":true,\"pattern\":\""),
                Piece::Bytes(name.as_bytes()),
                Piece::Text("\"}"),
            ];
            proof {
                let d = Draft { bytes: resp@, ok: true };
                assert(spec_put_all(d, pieces@, 0) == d);
                assert(spec_put_all(d, pieces@, 1) == d.put(spec_piece(pieces@[0])));
                assert(spec_put_all(d, pieces@, 2) == spec_put_all(d, pieces@, 1).put(
                    spec_piece(pieces@[1]),
                ));
                assert(spec_put_all(d, pieces@, 3) == spec_put_all(d, pieces@, 2).put(
                    spec_piece(pieces@[2]),
                ));
            }
            resp.write(pieces.as_slice());
        },
    }
}

/// The bytes of the answer to the request `req` for the sign in the
/// state `ctx` with the address `ip`.
pub open spec fn spec_response(req: Seq<u8>, ctx: Context, ip: [u8; 4]) -> Seq<u8> {
    match spec_route(crate::http::spec_method(req), spec_path_text(req)) {
        Route::StatusPage => spec_page_status(ctx, ip),
        Route::Status => spec_api_status(ctx, ip),
        Route::LayoutGet => spec_api_layout_get(ctx),
        Route::LayoutPost => spec_api_layout_post(
            spec_posted_layout(ctx.layout@, spec_body_text(req)),
        ),
        Route::LayoutApply => spec_api_layout_apply(ctx.layout),
        Route::DisplayGet => spec_api_display_get(ctx),
        Route::DisplayOn => spec_api_display_switch(true),
        Route::DisplayOff => spec_api_display_switch(false),
        Route::DisplayPattern => spec_api_display_pattern(ctx.hub75@, spec_body_text(req)),
        Route::BitmapStats => spec_api_bitmap_stats(ctx.bitmap_stats),
        Route::NotFound => spec_push(Seq::empty(), NOT_FOUND.spec_bytes()),
    }
}

/// The device after the request `req`.
pub open spec fn spec_device_after_request(req: Seq<u8>, ctx: Context) -> Hub75View {
    let dev = ctx.hub75@;
    match spec_route(crate::http::spec_method(req), spec_path_text(req)) {
        Route::LayoutApply => spec_apply(ctx.layout, dev),
        Route::DisplayOn => Hub75View { enabled: true, ..dev },
        Route::DisplayOff => Hub75View { enabled: false, ..dev },
        Route::DisplayPattern => match spec_requested_pattern(dev, spec_body_text(req)) {
            Some(kind) => spec_drawn(dev, kind).presented(),
            None => dev,
        },
        _ => dev,
    }
}

/// The animation after the request `req`.
pub open spec fn spec_animation_after_request(req: Seq<u8>, ctx: Context) -> Animation {
    match spec_route(crate::http::spec_method(req), spec_path_text(req)) {
        Route::DisplayPattern => match spec_requested_pattern(ctx.hub75@, spec_body_text(req)) {
            Some(kind) => spec_animation_of(kind),
            None => ctx.animation,
        },
        _ => ctx.animation,
    }
}

/// The layout after the request `req`.
pub open spec fn spec_layout_after_request(req: Seq<u8>, ctx: Context) -> LayoutModel {
    match spec_route(crate::http::spec_method(req), spec_path_text(req)) {
        Route::LayoutPost => spec_posted_layout(ctx.layout@, spec_body_text(req)),
        _ => ctx.layout@,
    }
}

/// Serves a request: writes the answer into `resp` and does to the sign
/// what the request asks for.
pub fn handle_request(req: &HttpRequest, resp: &mut HttpResponse, ctx: &mut Context, ip: [u8; 4])
    requires
        req.wf(),
        old(ctx).hub75.wf(),
    ensures
        final(ctx).hub75.wf(),
        final(resp)@ == spec_response(req@.bytes, *old(ctx), ip),
        final(ctx).hub75@ == spec_device_after_request(req@.bytes, *old(ctx)),
        final(ctx).animation == spec_animation_after_request(req@.bytes, *old(ctx)),
        final(ctx).layout@ == spec_layout_after_request(req@.bytes, *old(ctx)),
        same_identity(*final(ctx), *old(ctx)),
{
    match route(req.method(), req.path()) {
        Route::StatusPage => page_status(resp, ctx, ip),
        Route::Status => api_status(resp, ctx, ip),
        Route::LayoutGet => api_layout_get(resp, ctx),
        Route::LayoutPost => api_layout_post(req, resp, ctx),
        Route::LayoutApply => api_layout_apply(resp, ctx),
        Route::DisplayGet => api_display_get(resp, ctx),
        Route::DisplayOn => api_display_on(resp, ctx),
        Route::DisplayOff => api_display_off(resp, ctx),
        Route::DisplayPattern => api_display_pattern(req, resp, ctx),
        Route::BitmapStats => api_bitmap_stats(resp, ctx),
        Route::NotFound => resp.not_found(),
    }
}

} // verus!
