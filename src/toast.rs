//! Notification descriptors: tag and group identity, expiry, the fixed action
//! set of each content kind, and the markup handed to the notification surface.

use vstd::prelude::*;
use crate::payload::{ClipboardPayload, Payload, PhotoPayload, SmsPayload};
use crate::text::{append_signed_decimal, attr_escaped, escape_attribute, escape_markup, escaped, preview_of, push_char, signed_decimal_of, truncate_preview};

verus! {

/// Group shared by every notification of the application.
pub const APP_GROUP: &'static str = "FastSync";

pub const PHOTO_TAG: &'static str = "CurrentPhoto";

pub const SMS_TAG: &'static str = "sms_sync";

pub const CLIPBOARD_TAG: &'static str = "clipboard_sync";

pub const PHOTO_TTL_MILLIS: i64 = 30_000;

pub const SMS_TTL_MILLIS: i64 = 60_000;

pub const CLIPBOARD_TTL_MILLIS: i64 = 30_000;

/// 100-nanosecond ticks per millisecond.
pub const TICKS_PER_MILLI: i64 = 10_000;

/// Ticks from 1601-01-01 to the Unix epoch, the offset of the surface's clock.
pub const UNIX_EPOCH_TICKS: i64 = 116_444_736_000_000_000;

/// Earliest and latest expiry, in Unix milliseconds, whose tick count is computed
/// without leaving the `i64` range.
pub const MIN_EXPIRY_MILLIS: i64 = -922_337_203_685_477;

pub const MAX_EXPIRY_MILLIS: i64 = 910_692_730_085_477;

/// The actions a notification can offer.
#[derive(Clone, Copy, PartialEq, Eq, Debug)]
pub enum ActionKind {
    Save,
    Copy,
    CopyContent,
    CopyCode,
    CopyClipboard,
    Ignore,
}

pub open spec fn action_id_of(a: ActionKind) -> Seq<char> {
    match a {
        ActionKind::Save => "save"@,
        ActionKind::Copy => "copy"@,
        ActionKind::CopyContent => "copy_content"@,
        ActionKind::CopyCode => "copy_code"@,
        ActionKind::CopyClipboard => "copy_clipboard"@,
        ActionKind::Ignore => "ignore"@,
    }
}

pub open spec fn action_label_of(a: ActionKind) -> Seq<char> {
    match a {
        ActionKind::Save => "保存"@,
        ActionKind::Copy => "复制"@,
        ActionKind::CopyContent => "复制原文"@,
        ActionKind::CopyCode => "复制验证码"@,
        ActionKind::CopyClipboard => "复制"@,
        ActionKind::Ignore => "忽略"@,
    }
}

/// The identifier the surface hands back when the action is chosen.
pub fn action_id(a: ActionKind) -> (r: &'static str)
    ensures
        r@ == action_id_of(a),
{
    match a {
        ActionKind::Save => "save",
        ActionKind::Copy => "copy",
        ActionKind::CopyContent => "copy_content",
        ActionKind::CopyCode => "copy_code",
        ActionKind::CopyClipboard => "copy_clipboard",
        ActionKind::Ignore => "ignore",
    }
}

/// The button text of an action.
pub fn action_label(a: ActionKind) -> (r: &'static str)
    ensures
        r@ == action_label_of(a),
{
    match a {
        ActionKind::Save => "保存",
        ActionKind::Copy => "复制",
        ActionKind::CopyContent => "复制原文",
        ActionKind::CopyCode => "复制验证码",
        ActionKind::CopyClipboard => "复制",
        ActionKind::Ignore => "忽略",
    }
}

pub open spec fn photo_actions() -> Seq<ActionKind> {
    seq![ActionKind::Save, ActionKind::Copy, ActionKind::Ignore]
}

pub open spec fn clipboard_actions() -> Seq<ActionKind> {
    seq![ActionKind::CopyClipboard, ActionKind::Ignore]
}

/// The "copy code" action is offered only when there is a code.
pub open spec fn sms_actions(code: Seq<char>) -> Seq<ActionKind> {
    if code.len() == 0 {
        seq![ActionKind::CopyContent, ActionKind::Ignore]
    } else {
        seq![ActionKind::CopyContent, ActionKind::CopyCode, ActionKind::Ignore]
    }
}

/// Extra attributes of the clipboard notification's buttons: choosing one
/// brings the application to the foreground.
pub const FOREGROUND_ACTIVATION: &'static str = " activationType='foreground'";

/// One button; `extra` holds further attributes, possibly none.
pub open spec fn action_markup(a: ActionKind, extra: Seq<char>) -> Seq<char> {
    "<action content='"@ + action_label_of(a) + "' arguments='"@ + action_id_of(a) + "'"@ + extra + "/>"@
}

pub open spec fn actions_markup(acts: Seq<ActionKind>, extra: Seq<char>) -> Seq<char>
    decreases acts.len(),
{
    if acts.len() == 0 {
        Seq::empty()
    } else {
        actions_markup(acts.drop_last(), extra) + action_markup(acts.last(), extra)
    }
}

/// A whole notification document: duration, visual part and actions.
pub open spec fn toast_markup(duration: Seq<char>, visual: Seq<char>, acts: Seq<ActionKind>, extra: Seq<char>) -> Seq<char> {
    "<toast duration='"@ + duration + "' activationType='background'><visual><binding template='ToastGeneric'>"@
        + visual + "</binding></visual><actions>"@ + actions_markup(acts, extra) + "</actions></toast>"@
}

/// A path with every backslash turned into a forward slash.
pub open spec fn slashed(p: Seq<char>) -> Seq<char> {
    p.map_values(|c: char| if c == '\\' { '/' } else { c })
}

pub open spec fn photo_visual(path: Seq<char>) -> Seq<char> {
    "<text>收到手机图片</text><image placement='hero' src='file:///"@ + attr_escaped(slashed(path)) + "'/>"@
}

pub open spec fn sms_visual(sender: Seq<char>, content: Seq<char>) -> Seq<char> {
    "<text>收到手机短信 - "@ + escaped(sender) + "</text><text>"@ + escaped(preview_of(content))
        + "</text>"@
}

pub open spec fn clipboard_visual(text: Seq<char>) -> Seq<char> {
    "<text>收到手机剪贴板</text><text>"@ + escaped(preview_of(text)) + "</text>"@
}

/// The expiry instant, in milliseconds and in surface ticks, fits in an `i64`.
pub open spec fn expiry_fits(now_millis: int, ttl: int) -> bool {
    MIN_EXPIRY_MILLIS <= now_millis + ttl <= MAX_EXPIRY_MILLIS
}

/// Why a notification could not be built or shown.
#[derive(Clone, Copy, PartialEq, Eq, Debug)]
pub enum NotificationError {
    /// The expiry instant lies outside the representable range.
    ExpiryOutOfRange,
}

/// A notification as handed to the surface, with the payload it came from.
pub struct Notification {
    pub tag: String,
    pub group: String,
    pub body_preview: String,
    pub expiry_millis: i64,
    pub expiry_ticks: i64,
    pub actions: Vec<ActionKind>,
    pub markup: String,
    pub origin: Payload,
}

/// The fields every notification of a kind shares, given its visual part and actions.
pub open spec fn notification_shape(
    n: Notification,
    tag: Seq<char>,
    ttl: int,
    now_millis: int,
    duration: Seq<char>,
    visual: Seq<char>,
    acts: Seq<ActionKind>,
    extra: Seq<char>,
) -> bool {
    &&& n.tag@ == tag
    &&& n.group@ == APP_GROUP@
    &&& n.expiry_millis == now_millis + ttl
    &&& n.expiry_ticks == (now_millis + ttl) * TICKS_PER_MILLI + UNIX_EPOCH_TICKS
    &&& n.actions@ == acts
    &&& n.markup@ == toast_markup(duration, visual, acts, extra)
}

pub open spec fn is_photo_notification(n: Notification, p: PhotoPayload, path: Seq<char>, now: int) -> bool {
    &&& notification_shape(n, PHOTO_TAG@, PHOTO_TTL_MILLIS as int, now, "long"@, photo_visual(path), photo_actions(), ""@)
    &&& n.body_preview@ == Seq::<char>::empty()
    &&& n.origin matches Payload::Photo(q) && q.bytes@ == p.bytes@
}

pub open spec fn is_sms_notification(n: Notification, p: SmsPayload, now: int) -> bool {
    &&& notification_shape(n, SMS_TAG@, SMS_TTL_MILLIS as int, now, "long"@, sms_visual(p.sender@, p.content@), sms_actions(p.code@), ""@)
    &&& n.body_preview@ == preview_of(p.content@)
    &&& n.origin matches Payload::Sms(q) && q.sender@ == p.sender@ && q.content@ == p.content@ && q.code@ == p.code@
}

pub open spec fn is_clipboard_notification(n: Notification, p: ClipboardPayload, now: int) -> bool {
    &&& notification_shape(n, CLIPBOARD_TAG@, CLIPBOARD_TTL_MILLIS as int, now, "short"@, clipboard_visual(p.text@), clipboard_actions(), FOREGROUND_ACTIVATION@)
    &&& n.body_preview@ == preview_of(p.text@)
    &&& n.origin matches Payload::Clipboard(q) && q.text@ == p.text@ && q.timestamp == p.timestamp
}

/// The expiry instant `ttl` after `now_millis`, in milliseconds and in ticks.
pub fn expiry_at(now_millis: i64, ttl: i64) -> (r: Result<(i64, i64), NotificationError>)
    requires
        0 <= ttl,
    ensures
        match r {
            Ok((ms, ticks)) => expiry_fits(now_millis as int, ttl as int) && ms == now_millis + ttl
                && ticks == (now_millis + ttl) * TICKS_PER_MILLI + UNIX_EPOCH_TICKS,
            Err(e) => !expiry_fits(now_millis as int, ttl as int) && e == NotificationError::ExpiryOutOfRange,
        },
{
    if now_millis > i64::MAX - ttl {
        return Err(NotificationError::ExpiryOutOfRange);
    }
    let ms = now_millis + ttl;
    if ms < MIN_EXPIRY_MILLIS || ms > MAX_EXPIRY_MILLIS {
        return Err(NotificationError::ExpiryOutOfRange);
    }
    proof {
        assert(MIN_EXPIRY_MILLIS * 10_000 <= ms * 10_000 <= MAX_EXPIRY_MILLIS * 10_000) by (nonlinear_arith)
            requires MIN_EXPIRY_MILLIS <= ms <= MAX_EXPIRY_MILLIS;
    }
    Ok((ms, ms * TICKS_PER_MILLI + UNIX_EPOCH_TICKS))
}

/// The "copy code" action is offered exactly when the message carries a code.
pub proof fn lemma_sms_code_action(code: Seq<char>)
    ensures
        sms_actions(code).contains(ActionKind::CopyCode) <==> code.len() > 0,
{
    let acts = sms_actions(code);
    if code.len() > 0 {
        assert(acts[1] == ActionKind::CopyCode);
    } else {
        assert forall|i: int| 0 <= i < acts.len() implies acts[i] != ActionKind::CopyCode by {}
    }
}

/// The actions of a text-message notification.
pub fn sms_action_set(code: &str) -> (r: Vec<ActionKind>)
    ensures
        r@ == sms_actions(code@),
{
    if code.unicode_len() == 0 {
        vec![ActionKind::CopyContent, ActionKind::Ignore]
    } else {
        vec![ActionKind::CopyContent, ActionKind::CopyCode, ActionKind::Ignore]
    }
}

/// Appends the markup of each action, in order.
fn append_actions(markup: &mut String, acts: &Vec<ActionKind>, extra: &str)
    ensures
        final(markup)@ == old(markup)@ + actions_markup(acts@, extra@),
{
    let ghost start = markup@;
    let mut i: usize = 0;
    while i < acts.len()
        invariant
            i <= acts.len(),
            markup@ == start + actions_markup(acts@.take(i as int), extra@),
        decreases acts.len() - i,
    {
        let a = acts[i];
        proof {
            let t = acts@.take(i as int + 1);
            assert(t.drop_last() == acts@.take(i as int));
            assert(t.last() == a);
        }
        markup.append("<action content='");
        markup.append(action_label(a));
        markup.append("' arguments='");
        markup.append(action_id(a));
        markup.append("'");
        markup.append(extra);
        markup.append("/>");
        i = i + 1;
    }
    proof {
        assert(acts@.take(acts.len() as int) == acts@);
    }
}

/// The whole notification document.
pub fn toast_document(duration: &str, visual: &str, acts: &Vec<ActionKind>, extra: &str) -> (r: String)
    ensures
        r@ == toast_markup(duration@, visual@, acts@, extra@),
{
    let mut r = String::from_str("<toast duration='");
    r.append(duration);
    r.append("' activationType='background'><visual><binding template='ToastGeneric'>");
    r.append(visual);
    r.append("</binding></visual><actions>");
    append_actions(&mut r, acts, extra);
    r.append("</actions></toast>");
    r
}

/// Turns every backslash of a path into a forward slash, as file URLs want.
pub fn slash_path(path: &str) -> (r: String)
    ensures
        r@ == slashed(path@),
{
    let chars = crate::text::chars_of(path);
    let mut r = String::new();
    let mut i: usize = 0;
    while i < chars.len()
        invariant
            chars@ == path@,
            i <= chars.len(),
            r@ == slashed(chars@.take(i as int)),
        decreases chars.len() - i,
    {
        let c = chars[i];
        let d = if c == '\\' { '/' } else { c };
        push_char(&mut r, d);
        proof {
            assert(slashed(chars@.take(i as int + 1)) == slashed(chars@.take(i as int)).push(d));
        }
        i = i + 1;
    }
    proof {
        assert(chars@.take(chars.len() as int) == path@);
    }
    r
}

/// The visual part of a photo notification, which shows the image at `path`.
pub fn photo_visual_markup(path: &str) -> (r: String)
    ensures
        r@ == photo_visual(path@),
{
    let slashed_path = slash_path(path);
    let mut r = String::from_str("<text>收到手机图片</text><image placement='hero' src='file:///");
    r.append(escape_attribute(slashed_path.as_str()).as_str());
    r.append("'/>");
    r
}

/// The visual part of a text-message notification.
pub fn sms_visual_markup(sender: &str, content: &str) -> (r: String)
    ensures
        r@ == sms_visual(sender@, content@),
{
    let preview = truncate_preview(content);
    let mut r = String::from_str("<text>收到手机短信 - ");
    r.append(escape_markup(sender).as_str());
    r.append("</text><text>");
    r.append(escape_markup(preview.as_str()).as_str());
    r.append("</text>");
    r
}

/// The visual part of a clipboard notification.
pub fn clipboard_visual_markup(text: &str) -> (r: String)
    ensures
        r@ == clipboard_visual(text@),
{
    let preview = truncate_preview(text);
    let mut r = String::from_str("<text>收到手机剪贴板</text><text>");
    r.append(escape_markup(preview.as_str()).as_str());
    r.append("</text>");
    r
}

/// The notification for a photo whose copy was stored at `image_path`.
pub fn photo_notification(payload: PhotoPayload, image_path: &str, now_millis: i64) -> (r: Result<Notification, NotificationError>)
    ensures
        match r {
            Ok(n) => is_photo_notification(n, payload, image_path@, now_millis as int),
            Err(e) => e == NotificationError::ExpiryOutOfRange
                && !expiry_fits(now_millis as int, PHOTO_TTL_MILLIS as int),
        },
        expiry_fits(now_millis as int, PHOTO_TTL_MILLIS as int) ==> r is Ok,
{
    let (expiry_millis, expiry_ticks) = match expiry_at(now_millis, PHOTO_TTL_MILLIS) {
        Ok(e) => e,
        Err(e) => return Err(e),
    };
    let actions = vec![ActionKind::Save, ActionKind::Copy, ActionKind::Ignore];
    let visual = photo_visual_markup(image_path);
    let markup = toast_document("long", visual.as_str(), &actions, "");
    Ok(Notification {
        tag: String::from_str(PHOTO_TAG),
        group: String::from_str(APP_GROUP),
        body_preview: String::new(),
        expiry_millis,
        expiry_ticks,
        actions,
        markup,
        origin: Payload::Photo(payload),
    })
}

/// The notification for a text message.
pub fn sms_notification(payload: SmsPayload, now_millis: i64) -> (r: Result<Notification, NotificationError>)
    ensures
        match r {
            Ok(n) => is_sms_notification(n, payload, now_millis as int),
            Err(e) => e == NotificationError::ExpiryOutOfRange
                && !expiry_fits(now_millis as int, SMS_TTL_MILLIS as int),
        },
        expiry_fits(now_millis as int, SMS_TTL_MILLIS as int) ==> r is Ok,
{
    let (expiry_millis, expiry_ticks) = match expiry_at(now_millis, SMS_TTL_MILLIS) {
        Ok(e) => e,
        Err(e) => return Err(e),
    };
    let actions = sms_action_set(payload.code.as_str());
    let visual = sms_visual_markup(payload.sender.as_str(), payload.content.as_str());
    let markup = toast_document("long", visual.as_str(), &actions, "");
    let body_preview = truncate_preview(payload.content.as_str());
    Ok(Notification {
        tag: String::from_str(SMS_TAG),
        group: String::from_str(APP_GROUP),
        body_preview,
        expiry_millis,
        expiry_ticks,
        actions,
        markup,
        origin: Payload::Sms(payload),
    })
}

/// The notification for clipboard text.
pub fn clipboard_notification(payload: ClipboardPayload, now_millis: i64) -> (r: Result<Notification, NotificationError>)
    ensures
        match r {
            Ok(n) => is_clipboard_notification(n, payload, now_millis as int),
            Err(e) => e == NotificationError::ExpiryOutOfRange
                && !expiry_fits(now_millis as int, CLIPBOARD_TTL_MILLIS as int),
        },
        expiry_fits(now_millis as int, CLIPBOARD_TTL_MILLIS as int) ==> r is Ok,
{
    let (expiry_millis, expiry_ticks) = match expiry_at(now_millis, CLIPBOARD_TTL_MILLIS) {
        Ok(e) => e,
        Err(e) => return Err(e),
    };
    let actions = vec![ActionKind::CopyClipboard, ActionKind::Ignore];
    let visual = clipboard_visual_markup(payload.text.as_str());
    let markup = toast_document("short", visual.as_str(), &actions, FOREGROUND_ACTIVATION);
    let body_preview = truncate_preview(payload.text.as_str());
    Ok(Notification {
        tag: String::from_str(CLIPBOARD_TAG),
        group: String::from_str(APP_GROUP),
        body_preview,
        expiry_millis,
        expiry_ticks,
        actions,
        markup,
        origin: Payload::Clipboard(payload),
    })
}

pub open spec fn temp_image_name_of(millis: int) -> Seq<char> {
    "fastsync_"@ + signed_decimal_of(millis) + ".png"@
}

/// The file name under which a received photo is stored for the notification
/// to show, distinguished by the time it arrived.
pub fn temp_image_name(millis: i64) -> (r: String)
    ensures
        r@ == temp_image_name_of(millis as int),
{
    let mut r = String::from_str("fastsync_");
    append_signed_decimal(&mut r, millis);
    r.append(".png");
    r
}

} // verus!
