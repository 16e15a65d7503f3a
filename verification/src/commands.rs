//! The commands of a session: their names on the wire and the JSON bodies
//! of the two that configure the device.

use vstd::prelude::*;
use vstd::string::*;
use crate::error::ProtocolError;
use crate::json::{json_list, json_string, push_json_list, push_json_string};
use crate::screen_setup::{ScreenConfig, ScreenConfigView};
use crate::text::{decimal, push_decimal};

verus! {

/// The body of `mediaDelete`: the one file that the device is to keep.
pub open spec fn media_delete_text(file_name: Seq<char>) -> Seq<char> {
    "{\"exclude\":["@ + json_string(file_name) + "]}"@
}

/// The body of `waterBlockScreenId`: the configuration, with `file_name`
/// as its only media entry. The keys of each object stand in alphabetical
/// order.
pub open spec fn screen_config_text(config: ScreenConfigView, file_name: Seq<char>) -> Seq<char> {
    "{\"id\":"@ + json_string(config.id) + ",\"media\":["@ + json_string(file_name)
        + "],\"playMode\":"@ + json_string(config.play_mode) + ",\"ratio\":"@ + json_string(
        config.ratio,
    ) + ",\"screenMode\":"@ + json_string(config.screen_mode) + ",\"settings\":{\"align\":"@
        + json_string(config.align) + ",\"badges\":"@ + json_list(config.badges) + ",\"color\":"@
        + json_string(config.color) + ",\"filter\":{\"opacity\":"@ + decimal(
        config.filter_opacity as nat,
    ) + ",\"value\":null}},\"sysinfoDisplay\":"@ + json_list(config.sysinfo_display) + "}"@
}

/// The body of the command that removes all media but `file_name` from the
/// device. It always succeeds.
pub fn media_delete_body(file_name: &str) -> (result: Result<String, ProtocolError>)
    ensures
        result matches Ok(body) && body@ == media_delete_text(file_name@),
{
    let mut body = "{\"exclude\":[".to_owned();
    push_json_string(&mut body, file_name)?;
    body.append("]}");
    Ok(body)
}

/// The body of the command that sets the display configuration and names
/// `file_name` as the image to show. It always succeeds.
pub fn screen_config_body(config: &ScreenConfig, file_name: &str) -> (result: Result<
    String,
    ProtocolError,
>)
    ensures
        result matches Ok(body) && body@ == screen_config_text(config@, file_name@),
{
    let mut body = "{\"id\":".to_owned();
    push_json_string(&mut body, config.id.as_str())?;
    body.append(",\"media\":[");
    push_json_string(&mut body, file_name)?;
    body.append("],\"playMode\":");
    push_json_string(&mut body, config.play_mode.as_str())?;
    body.append(",\"ratio\":");
    push_json_string(&mut body, config.ratio.as_str())?;
    body.append(",\"screenMode\":");
    push_json_string(&mut body, config.screen_mode.as_str())?;
    body.append(",\"settings\":{\"align\":");
    push_json_string(&mut body, config.align.as_str())?;
    body.append(",\"badges\":");
    push_json_list(&mut body, &config.badges)?;
    body.append(",\"color\":");
    push_json_string(&mut body, config.color.as_str())?;
    body.append(",\"filter\":{\"opacity\":");
    push_decimal(&mut body, config.filter_opacity as u64);
    body.append(",\"value\":null}},\"sysinfoDisplay\":");
    push_json_list(&mut body, &config.sysinfo_display)?;
    body.append("}");
    assert(body@ =~= screen_config_text(config@, file_name@));
    Ok(body)
}

} // verus!
