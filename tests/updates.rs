use emporium_monitor::text::decimal_text;
use emporium_monitor::updates::{compare, create_notification_text, Reward, RewardUpdate, UsergroupPing};

fn listed(title: &str, tokens: u8, description: &str, image: &str) -> Reward {
    Reward {
        title: title.to_string(),
        description: description.to_string(),
        tokens,
        image_url: image.to_string(),
    }
}

#[test]
fn compare_reports_new_updated_and_removed() {
    let old = vec![listed("A", 1, "a", "https://i/a"), listed("B", 2, "b", "https://i/b"), listed("C", 3, "c", "https://i/c")];
    let new = vec![listed("B", 5, "b", "https://i/b"), listed("D", 4, "d", "https://i/d"), listed("C", 3, "c", "https://i/c")];
    let updates = compare(&old, &new);
    assert_eq!(updates.len(), 3);
    assert!(matches!(&updates[0], RewardUpdate::Updated { old, new } if old.tokens == 2 && new.tokens == 5));
    assert!(matches!(&updates[1], RewardUpdate::New(r) if r.title == "D"));
    assert!(matches!(&updates[2], RewardUpdate::Removed(r) if r.title == "A"));
    assert_eq!(updates[0].item_name(), "B");
    assert_eq!(updates[0].old_item().unwrap().tokens, 2);
    assert!(updates[1].old_item().is_none());
    assert_eq!(updates[2].item().title, "A");
}

#[test]
fn compare_of_equal_listings_is_empty() {
    let l = vec![listed("A", 1, "a", "https://i/a")];
    assert!(compare(&l, &l).is_empty());
}

#[test]
fn notification_text_lists_each_kind() {
    let updates = vec![
        RewardUpdate::New(listed("N1", 1, "", "u")),
        RewardUpdate::Removed(listed("R1", 1, "", "u")),
        RewardUpdate::New(listed("N2", 1, "", "u")),
        RewardUpdate::Updated { old: listed("U", 1, "", "u"), new: listed("U", 2, "", "u") },
    ];
    assert_eq!(
        create_notification_text(&updates),
        "New items: N1, N2 \u{b7} Updated items: U \u{b7} Removed items: R1"
    );
    assert_eq!(create_notification_text(&[RewardUpdate::Removed(listed("R ", 1, "", "u"))]), "Removed items: R");
    assert_eq!(create_notification_text(&[]), "");
}

#[test]
fn update_texts_show_changes() {
    let u = RewardUpdate::Updated {
        old: listed("T", 9, "", "https://i/old"),
        new: listed("T", 120, "now", "https://i/new"),
    };
    assert_eq!(u.token_text(), "9 \u{2192} 120");
    assert_eq!(u.description_text(), "_no description_ \u{2192} now");
    assert_eq!(u.header_text(), ":arrows_counterclockwise: Reward: T (:coin: 9 \u{2192} 120)");
    assert_eq!(u.old_image_url().map(|s| s.as_str()), Some("https://i/old"));
    let n = RewardUpdate::New(listed("T", 7, "d", "https://i/x"));
    assert_eq!(n.token_text(), "7");
    assert_eq!(n.description_text(), "d");
    assert_eq!(n.emoji(), ":new:");
    assert!(n.old_image_url().is_none());
}

#[test]
fn decimal_text_writes_bytes() {
    assert_eq!(decimal_text(0), "0");
    assert_eq!(decimal_text(42), "42");
    assert_eq!(decimal_text(255), "255");
    assert_eq!(decimal_text(100), "100");
}

#[test]
fn usergroup_ping_text() {
    assert!(UsergroupPing::new(None).is_none());
    let p = UsergroupPing::new(Some("S123".to_string())).unwrap();
    assert_eq!(p.ping_text("https://github.com/o/r"), "pinging <!subteam^S123> \u{b7} <https://github.com/o/r|>");
}
