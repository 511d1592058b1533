use scrap_wayland::tokens::{
    clear_restore_token_state, decide_token_update, load_restore_tokens, save_restore_token_for,
    should_use_restore_token, LocalOptions, TokenMap, TokenUpdate,
};

fn options(single: &str, tokens: &str) -> LocalOptions {
    LocalOptions {
        restore_token: single.to_string(),
        restore_tokens: tokens.to_string(),
        display_offset: "offsets".to_string(),
    }
}

#[test]
fn tokens_are_read() {
    let o = options("", r#"{"DP-3":"abc","HDMI-A-1":"d\"e"}"#);
    let tokens = load_restore_tokens(&o);
    assert_eq!(tokens.get("DP-3").map(|t| t.as_str()), Some("abc"));
    assert_eq!(tokens.get("HDMI-A-1").map(|t| t.as_str()), Some("d\"e"));
    assert!(tokens.get("DP-1").is_none());
}

#[test]
fn unreadable_tokens_are_none() {
    assert!(load_restore_tokens(&options("", "")).get("DP-3").is_none());
    assert!(load_restore_tokens(&options("", "{")).get("DP-3").is_none());
    assert!(load_restore_tokens(&options("", r#"{"DP-3":1}"#)).get("DP-3").is_none());
    assert!(load_restore_tokens(&options("", "[]")).get("DP-3").is_none());
}

#[test]
fn saved_token_is_found() {
    let mut o = options("", "");
    save_restore_token_for(&mut o, "DP-3", "a\n\u{e9}\\");
    assert_eq!(o.restore_tokens, "{\"DP-3\":\"a\\n\u{e9}\\\\\"}");
    save_restore_token_for(&mut o, "HDMI-A-1", "second");
    let tokens = load_restore_tokens(&o);
    assert_eq!(tokens.get("DP-3").map(|t| t.as_str()), Some("a\n\u{e9}\\"));
    assert_eq!(tokens.get("HDMI-A-1").map(|t| t.as_str()), Some("second"));
    save_restore_token_for(&mut o, "DP-3", "new");
    let tokens = load_restore_tokens(&o);
    assert_eq!(tokens.get("DP-3").map(|t| t.as_str()), Some("new"));
    assert_eq!(tokens.get("HDMI-A-1").map(|t| t.as_str()), Some("second"));
    assert_eq!(o.display_offset, "offsets");
}

#[test]
fn empty_token_changes_nothing() {
    let mut o = options("s", r#"{"DP-3":"abc"}"#);
    save_restore_token_for(&mut o, "", "t");
    save_restore_token_for(&mut o, "DP-3", "");
    assert_eq!(o.restore_token, "s");
    assert_eq!(o.restore_tokens, r#"{"DP-3":"abc"}"#);
}

#[test]
fn saving_twice_changes_nothing_more() {
    let mut o = options("t", "");
    save_restore_token_for(&mut o, "DP-3", "t");
    assert_eq!(o.restore_token, "");
    assert_eq!(o.restore_tokens, r#"{"DP-3":"t"}"#);
    save_restore_token_for(&mut o, "DP-3", "t");
    assert_eq!(o.restore_token, "");
    assert_eq!(o.restore_tokens, r#"{"DP-3":"t"}"#);
}

#[test]
fn single_token_migrates() {
    let mut o = options("old", r#"{"DP-3":"old"}"#);
    save_restore_token_for(&mut o, "DP-3", "new");
    assert_eq!(o.restore_token, "");
    assert_eq!(o.restore_tokens, r#"{"DP-3":"new"}"#);
    let mut o = options("old", r#"{"DP-3":"old"}"#);
    save_restore_token_for(&mut o, "DP-3", "old");
    assert_eq!(o.restore_token, "");
    assert_eq!(o.restore_tokens, r#"{"DP-3":"old"}"#);
    let mut o = options("other", r#"{"DP-3":"old"}"#);
    save_restore_token_for(&mut o, "DP-3", "new");
    assert_eq!(o.restore_token, "other");
}

#[test]
fn updates_are_decided() {
    let tokens = TokenMap::new().insert("a", "1").insert("b", "2").insert("a", "3");
    let decide = |single: &str, monitor: &str, token: &str| {
        decide_token_update(&tokens, &single.to_string(), monitor, token)
    };
    assert!(matches!(decide("", "", "x"), TokenUpdate::Keep));
    assert!(matches!(decide("x", "a", "3"), TokenUpdate::Keep));
    assert!(matches!(decide("3", "a", "3"), TokenUpdate::DropSingle));
    assert!(matches!(decide("x", "a", "y"), TokenUpdate::Store));
    assert!(matches!(decide("3", "a", "y"), TokenUpdate::StoreAndDropSingle));
    assert!(matches!(decide("y", "c", "y"), TokenUpdate::StoreAndDropSingle));
}

#[test]
fn cleared_options_hold_no_token() {
    let mut o = options("t", r#"{"DP-3":"t"}"#);
    clear_restore_token_state(&mut o);
    assert_eq!(o.restore_token, "");
    assert_eq!(o.restore_tokens, "");
    assert_eq!(o.display_offset, "");
    assert!(load_restore_tokens(&o).get("DP-3").is_none());
}

#[test]
fn tokens_are_used_where_known() {
    assert!(should_use_restore_token(true));
    assert!(!should_use_restore_token(false));
}
