//! Desktop notifications: their text, their expiry, and wide strings for the
//! operating system.

use vstd::prelude::*;
use vstd::string::{spec_iter, StringExecFns};
use vstd::std_specs::iter::IteratorSpec;

use crate::config::GrebeConfig;

verus! {

/// Application identity under which notifications are shown; the start menu
/// shortcut carries the same identity.
pub const APP_ID: &'static str = "Grebe.HardwareVolumeMixer";

/// Windows file-time ticks (100 ns) between 1601-01-01 and the Unix epoch.
pub const EPOCH_DIFFERENCE_TICKS: u128 = 116_444_736_000_000_000;

/// Windows file-time ticks in one second.
pub const TICKS_PER_SECOND: i64 = 10_000_000;

/// The toast document: the title and the message as its two text lines, and
/// whether it plays a sound. The texts are inserted as they are.
pub open spec fn toast_document(title: Seq<char>, message: Seq<char>, silent: bool) -> Seq<char> {
    "<toast>\n            <visual>\n                <binding template=\"ToastGeneric\">\n                    <text>"@
        + title + "</text>\n                    <text>"@ + message
        + "</text>\n                </binding>\n            </visual>\n            <audio silent=\""@
        + (if silent { "true"@ } else { "false"@ }) + "\" />\n        </toast>"@
}

/// Opening of the toast document, up to its first text element's content.
pub open spec fn toast_head() -> Seq<char> {
    "<toast>\n            <visual>\n                <binding template=\"ToastGeneric\">\n                    <text>"@
}

/// What separates the title from the message in the toast document.
pub open spec fn toast_between() -> Seq<char> {
    "</text>\n                    <text>"@
}

/// The first text element of a toast holds the title and the second the
/// message, for either sound setting: the document starts with the fixed
/// opening, the title, the fixed separator and the message, and the silent
/// and non-silent documents agree on all of that.
pub proof fn law_toast_texts(title: Seq<char>, message: Seq<char>, silent: bool)
    ensures
        ({
            let doc = toast_document(title, message, silent);
            let h = toast_head().len() as int;
            let t = title.len() as int;
            let b = toast_between().len() as int;
            let m = message.len() as int;
            &&& doc.subrange(0, h) == toast_head()
            &&& doc.subrange(h, h + t) == title
            &&& doc.subrange(h + t, h + t + b) == toast_between()
            &&& doc.subrange(h + t + b, h + t + b + m) == message
            &&& doc.subrange(0, h + t + b + m) == toast_document(title, message, !silent).subrange(
                0,
                h + t + b + m,
            )
        }),
{
    let h = toast_head().len() as int;
    let t = title.len() as int;
    let b = toast_between().len() as int;
    let m = message.len() as int;
    let front = toast_head() + title + toast_between() + message;
    assert forall|s: bool| #[trigger] toast_document(title, message, s).subrange(0, h + t + b + m) == front by {
        let rest = "</text>\n                </binding>\n            </visual>\n            <audio silent=\""@
            + (if s { "true"@ } else { "false"@ }) + "\" />\n        </toast>"@;
        assert(toast_document(title, message, s) =~= front + rest);
        assert(toast_document(title, message, s).subrange(0, h + t + b + m) =~= front);
    }
    let doc = toast_document(title, message, silent);
    assert(doc.subrange(0, h + t + b + m) == front);
    assert(doc.subrange(0, h) =~= front.subrange(0, h));
    assert(front.subrange(0, h) =~= toast_head());
    assert(doc.subrange(h, h + t) =~= front.subrange(h, h + t));
    assert(front.subrange(h, h + t) =~= title);
    assert(doc.subrange(h + t, h + t + b) =~= front.subrange(h + t, h + t + b));
    assert(front.subrange(h + t, h + t + b) =~= toast_between());
    assert(doc.subrange(h + t + b, h + t + b + m) =~= front.subrange(h + t + b, h + t + b + m));
    assert(front.subrange(h + t + b, h + t + b + m) =~= message);
    assert(toast_document(title, message, !silent).subrange(0, h + t + b + m) == front);
}

/// The toast document for a notification.
pub fn toast_xml(title: &str, message: &str, silent: bool) -> (xml: String)
    ensures
        xml@ == toast_document(title@, message@, silent),
{
    let mut xml = String::from_str(
        "<toast>\n            <visual>\n                <binding template=\"ToastGeneric\">\n                    <text>",
    );
    xml.append(title);
    xml.append("</text>\n                    <text>");
    xml.append(message);
    xml.append(
        "</text>\n                </binding>\n            </visual>\n            <audio silent=\"",
    );
    if silent {
        xml.append("true");
    } else {
        xml.append("false");
    }
    xml.append("\" />\n        </toast>");
    xml
}

/// The toast to show for a notification; none when the application is not
/// added to the start menu, since then the system cannot show it.
pub fn notification_toast(cfg: &GrebeConfig, title: &str, message: &str) -> (xml: Option<String>)
    ensures
        xml is Some <==> cfg.add_to_start,
        xml matches Some(x) ==> x@ == toast_document(title@, message@, cfg.notifications.silent),
{
    if !cfg.add_to_start {
        return None;
    }
    Some(toast_xml(title, message, cfg.notifications.silent))
}

/// When a notification expires, in Windows ticks: the current time converted
/// from nanoseconds since the Unix epoch and reinterpreted as a signed
/// 64-bit number, plus the expiration in seconds.
pub open spec fn spec_expiration_ticks(nanos_since_epoch: u128, expiration_secs: i64) -> int {
    ((nanos_since_epoch / 100 + EPOCH_DIFFERENCE_TICKS) as i64) + TICKS_PER_SECOND * expiration_secs
}

/// The expiry time of a notification created now.
pub fn expiration_ticks(nanos_since_epoch: u128, expiration_secs: i64) -> (t: i64)
    requires
        i64::MIN <= TICKS_PER_SECOND * expiration_secs <= i64::MAX,
        i64::MIN <= spec_expiration_ticks(nanos_since_epoch, expiration_secs) <= i64::MAX,
    ensures
        t == spec_expiration_ticks(nanos_since_epoch, expiration_secs),
{
    let now_windows_ticks = (nanos_since_epoch / 100) + EPOCH_DIFFERENCE_TICKS;
    (now_windows_ticks as i64) + TICKS_PER_SECOND * expiration_secs
}

/// UTF-16 code units of one character.
pub open spec fn utf16_units(c: char) -> Seq<u16> {
    let v = c as u32;
    if v < 0x10000 {
        seq![v as u16]
    } else {
        seq![(0xD800 + (v - 0x10000) / 0x400) as u16, (0xDC00 + (v - 0x10000) % 0x400) as u16]
    }
}

/// UTF-16 encoding of a text.
pub open spec fn encode_utf16(s: Seq<char>) -> Seq<u16>
    decreases s.len(),
{
    if s.len() == 0 {
        seq![]
    } else {
        encode_utf16(s.drop_last()) + utf16_units(s.last())
    }
}

/// A text as a zero-terminated UTF-16 string, as the operating system takes it.
pub fn to_widestr(value: &str) -> (wide: Vec<u16>)
    ensures
        wide@ == encode_utf16(value@).push(0u16),
{
    broadcast use vstd::string::axiom_spec_iter;
    let mut wide: Vec<u16> = Vec::new();
    for c in it: value.chars()
        invariant
            it.seq() == value@,
            wide@ == encode_utf16(value@.take(it.index())),
    {
        let ghost prefix = value@.take(it.index());
        proof {
            vstd::utf8::char_is_scalar(c);
        }
        let v = c as u32;
        if v < 0x10000 {
            wide.push(v as u16);
        } else {
            let w = v - 0x10000;
            wide.push((0xD800 + w / 0x400) as u16);
            wide.push((0xDC00 + w % 0x400) as u16);
        }
        assert(value@.take(it.index() + 1).drop_last() =~= prefix);
    }
    assert(value@.take(value@.len() as int) =~= value@);
    wide.push(0);
    wide
}

} // verus!
