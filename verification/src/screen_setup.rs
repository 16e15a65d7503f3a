//! The display configuration that a session sends, and the controller's
//! naming of files on the device.

use vstd::prelude::*;
use vstd::slice::slice_subrange;
use vstd::string::*;
use crate::parse::{number_up_to, or_zero, parse_number, to_chars, trim, trim_bounds};
use crate::text::{decimal, push_decimal};

verus! {

/// How the device is to show the transferred image. The caller owns it; the
/// protocol layer only reads it.
#[derive(Debug)]
pub struct ScreenConfig {
    pub id: String,
    pub screen_mode: String,
    pub play_mode: String,
    pub ratio: String,
    pub color: String,
    pub align: String,
    pub filter_opacity: u8,
    pub badges: Vec<String>,
    pub sysinfo_display: Vec<String>,
}

/// A `ScreenConfig` as plain text and numbers.
pub struct ScreenConfigView {
    pub id: Seq<char>,
    pub screen_mode: Seq<char>,
    pub play_mode: Seq<char>,
    pub ratio: Seq<char>,
    pub color: Seq<char>,
    pub align: Seq<char>,
    pub filter_opacity: u8,
    pub badges: Seq<Seq<char>>,
    pub sysinfo_display: Seq<Seq<char>>,
}

impl View for ScreenConfig {
    type V = ScreenConfigView;

    open spec fn view(&self) -> ScreenConfigView {
        ScreenConfigView {
            id: self.id@,
            screen_mode: self.screen_mode@,
            play_mode: self.play_mode@,
            ratio: self.ratio@,
            color: self.color@,
            align: self.align@,
            filter_opacity: self.filter_opacity,
            badges: self.badges.deep_view(),
            sysinfo_display: self.sysinfo_display.deep_view(),
        }
    }
}

/// The configuration that a fresh controller starts with.
pub open spec fn default_screen_config() -> ScreenConfigView {
    ScreenConfigView {
        id: "Customization"@,
        screen_mode: "Full Screen"@,
        play_mode: "Single"@,
        ratio: "2:1"@,
        color: "#dcdcdc"@,
        align: "Left"@,
        filter_opacity: 100,
        badges: seq!["GPU Badge"@, "CPU Badge"@],
        sysinfo_display: seq!["CPU Temperature"@, "GPU Temperature"@],
    }
}

/// A copy of `items`, string by string.
pub fn copy_strings(items: &Vec<String>) -> (copy: Vec<String>)
    ensures
        copy.deep_view() == items.deep_view(),
{
    let mut copy: Vec<String> = Vec::with_capacity(items.len());
    let mut i: usize = 0;
    while i < items.len()
        invariant
            i <= items.len(),
            copy.len() == i,
            forall|k: int| 0 <= k < i ==> copy@[k]@ == items@[k]@,
        decreases items.len() - i,
    {
        copy.push(items[i].clone());
        i = i + 1;
    }
    assert(copy.deep_view() =~= items.deep_view());
    copy
}

impl Default for ScreenConfig {
    fn default() -> (config: Self)
        ensures
            config@ == default_screen_config(),
    {
        let mut badges: Vec<String> = Vec::new();
        badges.push("GPU Badge".to_owned());
        badges.push("CPU Badge".to_owned());
        let mut sysinfo_display: Vec<String> = Vec::new();
        sysinfo_display.push("CPU Temperature".to_owned());
        sysinfo_display.push("GPU Temperature".to_owned());
        assert(badges.deep_view() =~= seq!["GPU Badge"@, "CPU Badge"@]);
        assert(sysinfo_display.deep_view() =~= seq!["CPU Temperature"@, "GPU Temperature"@]);
        ScreenConfig {
            id: "Customization".to_owned(),
            screen_mode: "Full Screen".to_owned(),
            play_mode: "Single".to_owned(),
            ratio: "2:1".to_owned(),
            color: "#dcdcdc".to_owned(),
            align: "Left".to_owned(),
            filter_opacity: 100,
            badges,
            sysinfo_display,
        }
    }
}

impl Clone for ScreenConfig {
    fn clone(&self) -> (copy: Self)
        ensures
            copy@ == self@,
    {
        ScreenConfig {
            id: self.id.clone(),
            screen_mode: self.screen_mode.clone(),
            play_mode: self.play_mode.clone(),
            ratio: self.ratio.clone(),
            color: self.color.clone(),
            align: self.align.clone(),
            filter_opacity: self.filter_opacity,
            badges: copy_strings(&self.badges),
            sysinfo_display: copy_strings(&self.sysinfo_display),
        }
    }
}

/// How the time stamp in the name of a pushed file is written, in the
/// notation of `strftime`: date and time of day to the millisecond.
pub const STAMP_PATTERN: &'static str = "%Y-%m-%d_%H-%M-%S-%3f";

/// The controller of one device, known by the path of its serial port.
pub struct AioCoolerController {
    serial_device: String,
}

impl AioCoolerController {
    /// The path of the serial port, as text.
    pub closed spec fn device(&self) -> Seq<char> {
        self.serial_device@
    }

    /// The controller of the device at the serial port `serial_device`.
    pub fn new(serial_device: &str) -> (controller: Self)
        ensures
            controller.device() == serial_device@,
    {
        Self { serial_device: serial_device.to_owned() }
    }

    /// The path of the serial port.
    pub fn serial_device(&self) -> (path: &str)
        ensures
            path@ == self.device(),
    {
        self.serial_device.as_str()
    }

    /// The MD5 digest of `data`, as 32 lower-case hexadecimal digits.
    pub fn calculate_md5(data: &[u8]) -> (hex: String)
        ensures
            hex@ == md5_hex(data@),
    {
        digest_hex(data)
    }

    /// A name for a file on the device: the time stamp, then a dot and
    /// `extension`. The stamp is the local time of the transfer, written as
    /// `STAMP_PATTERN` says; whoever runs the transfer reads it.
    pub fn filename_from(stamp: &str, extension: &str) -> (name: String)
        ensures
            name@ == stamped_name(stamp@, extension@),
    {
        let mut name = stamp.to_owned();
        name.append(".");
        name.append(extension);
        name
    }

    /// Where a pushed file lands on the device: the media directory, then
    /// the file's name.
    pub fn remote_path(remote_name: &str) -> (path: String)
        ensures
            path@ == "/sdcard/pcMedia/"@ + remote_name@,
    {
        let mut path = "/sdcard/pcMedia/".to_owned();
        path.append(remote_name);
        path
    }
}

/// The size that the device reports for a pushed file: the number that the
/// answer of `stat -c %s` writes once trimmed, or 0 where it writes none.
pub open spec fn remote_size_of(stat_output: Seq<char>) -> u64 {
    or_zero(number_up_to(trim(stat_output), u64::MAX))
}

/// The error for a pushed file whose size on the device differs from the
/// local one.
pub open spec fn size_mismatch_text(local: u64, remote: u64) -> Seq<char> {
    "File size mismatch: local="@ + decimal(local as nat) + ", remote="@ + decimal(remote as nat)
}

/// Checks the size that the device reports for a pushed file against the
/// size of the local file. Gives the size where they agree, the error
/// text where they differ.
pub fn verify_remote_size(expected: u64, stat_output: &str) -> (result: Result<u64, String>)
    ensures
        match result {
            Ok(size) => size == expected && remote_size_of(stat_output@) == expected,
            Err(text) => remote_size_of(stat_output@) != expected && text@ == size_mismatch_text(
                expected,
                remote_size_of(stat_output@),
            ),
        },
{
    let chars = to_chars(stat_output);
    let s = chars.as_slice();
    let (start, end) = trim_bounds(s);
    let remote: u64 = match parse_number(slice_subrange(s, start, end), u64::MAX) {
        Some(size) => size,
        None => 0,
    };
    if remote == expected {
        Ok(remote)
    } else {
        let mut text = "File size mismatch: local=".to_owned();
        push_decimal(&mut text, expected);
        text.append(", remote=");
        push_decimal(&mut text, remote);
        assert(text@ =~= size_mismatch_text(expected, remote));
        Err(text)
    }
}

/// The hexadecimal MD5 digest of `data`: what `md5::compute` and the
/// digest's lower-case hexadecimal formatting give for these bytes.
pub uninterp spec fn md5_hex(data: Seq<u8>) -> Seq<char>;

/// `md5::compute` on `data`, written by the digest's own `LowerHex`
/// formatting, which gives two lower-case hexadecimal digits for each of
/// its 16 bytes. The text is the named digest of these bytes.
#[verifier::external_body]
fn digest_hex(data: &[u8]) -> (hex: String)
    ensures
        hex@ == md5_hex(data@),
{
    format!("{:x}", md5::compute(data))
}

/// A time stamp, a dot and an extension.
pub open spec fn stamped_name(stamp: Seq<char>, extension: Seq<char>) -> Seq<char> {
    stamp + "."@ + extension
}

} // verus!
