//! The daemon's settings and the configuration packet for the display.

use vstd::prelude::*;

use crate::serial::{Packet, CONFIG_HEADER};

verus! {

/// Bytes of the packet that carries the display configuration.
pub const CONFIG_SIZE: usize = 6;

/// When desktop notifications are shown, and how.
#[derive(Debug, Clone)]
pub struct NotificationConfig {
    pub on_first_connect: bool,
    pub on_reconnect: bool,
    pub on_disconnect: bool,
    pub silent: bool,
    /// Seconds until a notification expires.
    pub expiration: i64,
}

/// How the microcontroller's display looks.
#[derive(Debug, Clone)]
pub struct DisplayConfig {
    /// Rotates the display.
    pub invert: bool,
    /// 24-bit RGB colour of the text.
    pub text_color: u64,
    /// 24-bit RGB colour of the background.
    pub background_color: u64,
}

/// All settings of the daemon.
#[derive(Debug, Clone)]
pub struct GrebeConfig {
    pub verbose: bool,
    pub port: String,
    pub blacklist: Vec<String>,
    pub aliases: Vec<(String, String)>,
    pub run_on_start: bool,
    pub select_new_app: bool,
    pub volume_scroll_size: u8,
    pub invert_volume: bool,
    pub invert_navigation: bool,
    pub add_to_start: bool,
    pub notifications: NotificationConfig,
    pub display: DisplayConfig,
}

/// The colour in RGB565: the top 5 bits of red, 6 of green and 5 of blue of
/// the low 24 bits of a 0xRRGGBB colour.
pub open spec fn rgb565(color: u64) -> u16 {
    let r = (color / 0x10000) % 0x100;
    let g = (color / 0x100) % 0x100;
    let b = color % 0x100;
    ((r / 8) * 0x800 + (g / 4) * 0x20 + b / 8) as u16
}

/// Low byte of a 16-bit value.
pub open spec fn low_byte(v: u16) -> u8 {
    (v % 0x100) as u8
}

/// High byte of a 16-bit value.
pub open spec fn high_byte(v: u16) -> u8 {
    (v / 0x100) as u8
}

/// The configuration packet's bytes: header, rotation flag, then the text
/// and background colours in RGB565, little-endian.
pub open spec fn config_bytes(d: DisplayConfig) -> Seq<u8> {
    seq![
        CONFIG_HEADER,
        if d.invert { 1u8 } else { 0u8 },
        low_byte(rgb565(d.text_color)),
        high_byte(rgb565(d.text_color)),
        low_byte(rgb565(d.background_color)),
        high_byte(rgb565(d.background_color)),
    ]
}

impl DisplayConfig {
    /// Converts a 24-bit 0xRRGGBB colour to RGB565.
    pub fn to_rgb565(color: u64) -> (c: u16)
        ensures
            c == rgb565(color),
    {
        let r = ((color >> 16u64) & 0xFFu64) as u8;
        let g = ((color >> 8u64) & 0xFFu64) as u8;
        let b = (color & 0xFFu64) as u8;
        let r5 = (r >> 3u8) as u16;
        let g6 = (g >> 2u8) as u16;
        let b5 = (b >> 3u8) as u16;
        proof {
            assert((color >> 16u64) & 0xFFu64 == (color / 0x10000) % 0x100) by (bit_vector);
            assert((color >> 8u64) & 0xFFu64 == (color / 0x100) % 0x100) by (bit_vector);
            assert(color & 0xFFu64 == color % 0x100) by (bit_vector);
            assert(r >> 3u8 == r / 8) by (bit_vector);
            assert(g >> 2u8 == g / 4) by (bit_vector);
            assert(b >> 3u8 == b / 8) by (bit_vector);
            assert((r5 << 11u16) | (g6 << 5u16) | b5 == r5 * 0x800 + g6 * 0x20 + b5) by (bit_vector)
                requires
                    r5 < 32,
                    g6 < 64,
                    b5 < 32,
            ;
        }
        (r5 << 11u16) | (g6 << 5u16) | b5
    }

    /// The packet that configures the display.
    pub fn to_packet(&self) -> (p: Packet)
        ensures
            p matches Packet::Config(bytes) && bytes@ == config_bytes(*self),
    {
        let mut bytes = [0u8; CONFIG_SIZE];
        bytes[0] = CONFIG_HEADER;
        bytes[1] = if self.invert { 1u8 } else { 0u8 };
        let text = DisplayConfig::to_rgb565(self.text_color);
        let background = DisplayConfig::to_rgb565(self.background_color);
        bytes[2] = (text % 0x100u16) as u8;
        bytes[3] = (text / 0x100u16) as u8;
        bytes[4] = (background % 0x100u16) as u8;
        bytes[5] = (background / 0x100u16) as u8;
        assert(bytes@ =~= config_bytes(*self));
        Packet::Config(bytes)
    }
}

} // verus!
