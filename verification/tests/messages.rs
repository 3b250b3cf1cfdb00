use dex::message::{update_msg, Message, MessageItem, MessageUpdate};
use dex::messages::Messages;
use dex::screen::{TermBuf, TermSize};

fn msg(id: u64, channel_id: u64, content: &str) -> Message {
    Message {
        id,
        channel_id,
        author_name: "ada".to_string(),
        content: content.to_string(),
        timestamp: 0,
        edited_timestamp: None,
        has_attachments: false,
        is_own: false,
    }
}

fn item(id: u64, channel_id: u64, content: &str) -> MessageItem {
    MessageItem::DiscordMessage(Box::new(msg(id, channel_id, content)))
}

fn ids(v: &Messages) -> Vec<u64> {
    v.messages()
        .iter()
        .map(|m| {
            let MessageItem::DiscordMessage(b) = m;
            b.id
        })
        .collect()
}

#[test]
fn delete_removes_the_first_match_only() {
    let mut v = Messages::new("%H:%M".to_string(), false);
    v.add_msg(item(1, 9, "a"));
    v.add_msg(item(2, 9, "b"));
    v.add_msg(item(2, 9, "b again"));
    v.delete_msg(9, 2);
    assert_eq!(ids(&v), [1, 2]);
    // A delete for another channel does nothing.
    v.delete_msg(8, 1);
    assert_eq!(ids(&v), [1, 2]);
}

#[test]
fn bulk_delete_matches_channel_and_listed_ids() {
    let mut v = Messages::new("%H:%M".to_string(), false);
    v.add_msg(item(1, 9, "a"));
    v.add_msg(item(2, 9, "b"));
    v.add_msg(item(3, 8, "other channel"));
    v.delete_msg_bulk(9, &vec![2, 3]);
    assert_eq!(ids(&v), [1, 3]);
}

#[test]
fn load_messages_replaces_the_list() {
    let mut v = Messages::new("%H:%M".to_string(), false);
    v.add_msg(item(1, 9, "a"));
    v.load_messages(vec![item(5, 9, "x"), item(6, 9, "y")]);
    assert_eq!(ids(&v), [5, 6]);
}

#[test]
fn update_msg_merges_only_present_fields() {
    let mut m = msg(1, 9, "old");
    update_msg(
        &mut m,
        MessageUpdate {
            id: 1,
            channel_id: 9,
            author_name: Some("hopper".to_string()),
            content: None,
            timestamp: None,
            edited_timestamp: None,
            has_attachments: Some(true),
        },
    );
    assert_eq!(m.author_name, "hopper");
    assert_eq!(m.content, "old");
    assert!(m.has_attachments);
    assert_eq!(m.edited_timestamp, None);
}

#[test]
fn render_wraps_long_bodies_to_the_width() {
    let v = Messages::new("%H:%M".to_string(), false);
    let mut body = msg(1, 9, "aaaa bbbb cccc dddd eeee ffff gggg hhhh");
    let mut buf = TermBuf::new(TermSize { width: 40, height: 24 });
    let mut y: usize = 12;
    let more = v.render_discord_msg(
        &mut body,
        TermSize { width: 40, height: 24 },
        &mut buf,
        &mut y,
    );
    assert!(more);
    // 40 columns minus the paddings leaves 12 for the body: the line
    // is wrapped onto several rows.
    assert!(body.content.contains('\n'));
    let first = body.content.lines().next().unwrap();
    assert!(first.len() <= 12);
    assert!(y < 12);
}

#[test]
fn render_trims_the_backlog_to_the_screen() {
    let mut v = Messages::new("%H:%M".to_string(), false);
    for i in 0..30u64 {
        v.add_msg(item(i, 9, "m"));
    }
    let mut buf = TermBuf::new(TermSize { width: 40, height: 12 });
    v.render(&mut buf, TermSize { width: 40, height: 12 });
    assert_eq!(v.messages().len(), 12);
    assert_eq!(ids(&v)[0], 18);
}
