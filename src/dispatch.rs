//! Maps the action chosen on a notification, together with the payload that
//! produced the notification, to the one local effect it calls for.

use vstd::prelude::*;
use crate::decode::DispatchError;
use crate::payload::Payload;
use crate::toast::{action_id, action_id_of, ActionKind};

verus! {

/// The action named by an identifier, if it is one of ours.
pub open spec fn action_of_id(id: Seq<char>) -> Option<ActionKind> {
    if id == action_id_of(ActionKind::Save) {
        Some(ActionKind::Save)
    } else if id == action_id_of(ActionKind::Copy) {
        Some(ActionKind::Copy)
    } else if id == action_id_of(ActionKind::CopyContent) {
        Some(ActionKind::CopyContent)
    } else if id == action_id_of(ActionKind::CopyCode) {
        Some(ActionKind::CopyCode)
    } else if id == action_id_of(ActionKind::CopyClipboard) {
        Some(ActionKind::CopyClipboard)
    } else if id == action_id_of(ActionKind::Ignore) {
        Some(ActionKind::Ignore)
    } else {
        None
    }
}

/// Reads an action identifier delivered by the notification surface.
pub fn parse_action(id: &str) -> (r: Option<ActionKind>)
    ensures
        r == action_of_id(id@),
{
    let given = String::from_str(id);
    if given == String::from_str(action_id(ActionKind::Save)) {
        Some(ActionKind::Save)
    } else if given == String::from_str(action_id(ActionKind::Copy)) {
        Some(ActionKind::Copy)
    } else if given == String::from_str(action_id(ActionKind::CopyContent)) {
        Some(ActionKind::CopyContent)
    } else if given == String::from_str(action_id(ActionKind::CopyCode)) {
        Some(ActionKind::CopyCode)
    } else if given == String::from_str(action_id(ActionKind::CopyClipboard)) {
        Some(ActionKind::CopyClipboard)
    } else if given == String::from_str(action_id(ActionKind::Ignore)) {
        Some(ActionKind::Ignore)
    } else {
        None
    }
}

/// The local effect of an action, to be carried out off the callback thread.
pub enum Effect {
    /// Ask for a destination and write these bytes there unchanged.
    SaveBytes(Vec<u8>),
    /// Decode these bytes and put the image on the clipboard.
    CopyImage(Vec<u8>),
    /// Put this text on the clipboard as it is.
    CopyText(String),
    /// Nothing to do.
    Nothing,
}

/// What the clipboard received.
#[derive(Clone, Copy, PartialEq, Eq, Debug)]
pub enum ClipboardKind {
    Text,
    Image,
}

/// How a dispatched action ended; reported, never stored.
pub enum ActionResult {
    Saved(String),
    Copied(ClipboardKind),
    Ignored,
    Failed(DispatchError),
}

/// The effect called for by `action` on `payload`, described over views.
pub open spec fn effect_matches(payload: Payload, action: Option<ActionKind>, r: Effect) -> bool {
    match (payload, action) {
        (Payload::Photo(p), Some(ActionKind::Save)) => r matches Effect::SaveBytes(b) && b@ == p.bytes@,
        (Payload::Photo(p), Some(ActionKind::Copy)) => r matches Effect::CopyImage(b) && b@ == p.bytes@,
        (Payload::Sms(s), Some(ActionKind::CopyContent)) => r matches Effect::CopyText(t) && t@ == s.content@,
        (Payload::Sms(s), Some(ActionKind::CopyCode)) => r matches Effect::CopyText(t) && t@ == s.code@,
        (Payload::Clipboard(c), Some(ActionKind::CopyClipboard)) => r matches Effect::CopyText(t) && t@
            == c.text@,
        _ => r is Nothing,
    }
}

/// The effect of the action named `id` on the payload a notification was built from.
pub fn dispatch(payload: &Payload, id: &str) -> (r: Effect)
    ensures
        effect_matches(*payload, action_of_id(id@), r),
{
    let action = parse_action(id);
    match (payload, action) {
        (Payload::Photo(p), Some(ActionKind::Save)) => Effect::SaveBytes(p.bytes.clone()),
        (Payload::Photo(p), Some(ActionKind::Copy)) => Effect::CopyImage(p.bytes.clone()),
        (Payload::Sms(s), Some(ActionKind::CopyContent)) => Effect::CopyText(s.content.clone()),
        (Payload::Sms(s), Some(ActionKind::CopyCode)) => Effect::CopyText(s.code.clone()),
        (Payload::Clipboard(c), Some(ActionKind::CopyClipboard)) => Effect::CopyText(c.text.clone()),
        _ => Effect::Nothing,
    }
}

} // verus!
