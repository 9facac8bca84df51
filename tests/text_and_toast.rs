use pc_receiver::payload::{ClipboardPayload, Payload, PhotoPayload, SmsPayload};
use pc_receiver::text::{escape_markup, truncate_preview};
use pc_receiver::toast::{
    action_id, clipboard_notification, photo_notification, sms_notification, temp_image_name,
    ActionKind, NotificationError, CLIPBOARD_TAG, PHOTO_TAG, SMS_TAG,
};

fn sms(sender: &str, content: &str, code: &str) -> SmsPayload {
    SmsPayload { sender: sender.to_string(), content: content.to_string(), code: code.to_string() }
}

#[test]
fn preview_keeps_short_text() {
    assert_eq!(truncate_preview("hello"), "hello");
    assert_eq!(truncate_preview(""), "");
}

#[test]
fn preview_keeps_exactly_one_hundred_chars() {
    let text = "a".repeat(100);
    assert_eq!(truncate_preview(&text), text);
}

#[test]
fn preview_cuts_long_text_with_ellipsis() {
    let text = "b".repeat(101);
    let expected = format!("{}...", "b".repeat(100));
    assert_eq!(truncate_preview(&text), expected);
}

#[test]
fn preview_counts_characters_not_bytes() {
    let text = "验".repeat(120);
    let preview = truncate_preview(&text);
    assert_eq!(preview.chars().count(), 103);
    assert!(preview.starts_with(&"验".repeat(100)));
    assert!(preview.ends_with("..."));
    let short = "验".repeat(60);
    assert_eq!(truncate_preview(&short), short);
}

#[test]
fn escape_replaces_markup_characters() {
    assert_eq!(escape_markup("a<b>&c"), "a&lt;b&gt;&amp;c");
    assert_eq!(escape_markup("plain"), "plain");
    assert_eq!(escape_markup("&amp;"), "&amp;amp;");
}

#[test]
fn escaped_text_has_no_raw_angle_brackets_and_unescapes_back() {
    let original = "<script>alert('x & y')</script>";
    let e = escape_markup(original);
    assert!(!e.contains('<'));
    assert!(!e.contains('>'));
    let back = e.replace("&lt;", "<").replace("&gt;", ">").replace("&amp;", "&");
    assert_eq!(back, original);
}

#[test]
fn sms_without_code_offers_no_copy_code() {
    let n = sms_notification(sms("10086", "hello", ""), 0).unwrap();
    assert_eq!(n.actions, vec![ActionKind::CopyContent, ActionKind::Ignore]);
    assert!(!n.markup.contains("copy_code"));
}

#[test]
fn sms_with_code_offers_copy_code() {
    let n = sms_notification(sms("10086", "your code is 1234", "1234"), 0).unwrap();
    assert_eq!(n.actions, vec![ActionKind::CopyContent, ActionKind::CopyCode, ActionKind::Ignore]);
    assert!(n.markup.contains("arguments='copy_code'"));
}

#[test]
fn sms_notification_fields() {
    let n = sms_notification(sms("A&B", "<hi>", "7"), 1_000).unwrap();
    assert_eq!(n.tag, SMS_TAG);
    assert_eq!(n.group, "FastSync");
    assert_eq!(n.expiry_millis, 61_000);
    assert_eq!(n.expiry_ticks, 61_000 * 10_000 + 116_444_736_000_000_000);
    assert_eq!(n.body_preview, "<hi>");
    assert!(n.markup.contains("收到手机短信 - A&amp;B"));
    assert!(n.markup.contains("<text>&lt;hi&gt;</text>"));
    assert!(n.markup.starts_with("<toast duration='long'"));
    match n.origin {
        Payload::Sms(p) => {
            assert_eq!(p.content, "<hi>");
            assert_eq!(p.code, "7");
        }
        _ => panic!("wrong payload kind"),
    }
}

#[test]
fn clipboard_notification_truncates_and_escapes() {
    let text = format!("{}<tail>", "x".repeat(100));
    let n = clipboard_notification(ClipboardPayload { text: text.clone(), timestamp: 5 }, 0).unwrap();
    assert_eq!(n.tag, CLIPBOARD_TAG);
    assert_eq!(n.expiry_millis, 30_000);
    assert_eq!(n.body_preview, format!("{}...", "x".repeat(100)));
    assert_eq!(n.actions, vec![ActionKind::CopyClipboard, ActionKind::Ignore]);
    assert!(!n.markup.contains("<tail>"));
    assert!(n.markup.starts_with("<toast duration='short'"));
    assert!(n.markup.contains(
        "<action content='复制' arguments='copy_clipboard' activationType='foreground'/><action content='忽略' arguments='ignore' activationType='foreground'/>"
    ));
}

#[test]
fn photo_notification_points_at_file_url() {
    let n = photo_notification(PhotoPayload { bytes: vec![1, 2, 3] }, "C:\\Temp\\fastsync_1.png", 0).unwrap();
    assert_eq!(n.tag, PHOTO_TAG);
    assert_eq!(n.actions, vec![ActionKind::Save, ActionKind::Copy, ActionKind::Ignore]);
    assert!(n.markup.contains("src='file:///C:/Temp/fastsync_1.png'"));
    assert!(n.markup.contains(
        "<actions><action content='保存' arguments='save'/><action content='复制' arguments='copy'/><action content='忽略' arguments='ignore'/></actions>"
    ));
}

#[test]
fn expiry_out_of_range_is_refused() {
    let r = sms_notification(sms("a", "b", ""), i64::MAX);
    assert!(matches!(r, Err(NotificationError::ExpiryOutOfRange)));
    let r = clipboard_notification(ClipboardPayload { text: "t".to_string(), timestamp: 0 }, i64::MIN);
    assert!(matches!(r, Err(NotificationError::ExpiryOutOfRange)));
}

#[test]
fn action_ids_are_fixed() {
    assert_eq!(action_id(ActionKind::Save), "save");
    assert_eq!(action_id(ActionKind::CopyClipboard), "copy_clipboard");
}

#[test]
fn temp_image_names_carry_the_time() {
    assert_eq!(temp_image_name(1_700_000_000_123), "fastsync_1700000000123.png");
    assert_eq!(temp_image_name(0), "fastsync_0.png");
    assert_eq!(temp_image_name(-42), "fastsync_-42.png");
    assert_eq!(temp_image_name(i64::MIN), "fastsync_-9223372036854775808.png");
}

#[test]
fn photo_path_apostrophe_is_escaped() {
    let n = photo_notification(PhotoPayload { bytes: vec![1] }, "C:\\Users\\O'Brien\\a&b.png", 0).unwrap();
    assert!(n.markup.contains("src='file:///C:/Users/O&apos;Brien/a&amp;b.png'"));
}
