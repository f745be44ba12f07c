//! Frame ingestion for a networked LED-matrix sign.
//!
//! Pictures arrive as numbered chunks in UDP datagrams. The raw ring of the
//! network device is drained directly while a stream runs, each datagram is
//! recognised by fixed offsets, the chunks are assembled on the write side
//! of a double-buffered framebuffer, and a swap puts a finished picture on
//! display. Around this core stand the sign's slower services: the layout of
//! several panels, test pictures, the stored picture format, the status
//! server, the operator's terminal and the fetch of the layout file.

pub mod artnet;
pub mod bitmap_udp;
pub mod bytes;
pub mod classify;
pub mod ethernet;
pub mod flash_id;
pub mod http;
pub mod http_api;
pub mod http_response;
pub mod hub75;
pub mod img;
pub mod img_flash;
pub mod layout;
pub mod menu;
pub mod patterns;
pub mod reassembly;
pub mod scheduler;
pub mod server;
pub mod telnet;
pub mod text;
pub mod tftp_config;
