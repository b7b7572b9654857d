use libui::login::{is_white_space, to_hex, trim, CRED_TYPE_PASS};
use libui::{first_n_chars, LoginDestination, LoginDialogInput, LoginParams};

#[test]
fn filled_in_needs_a_non_blank_user_name() {
    let mut input = LoginDialogInput::default();
    assert!(!input.is_filled_in());
    input.user_name = " \t\u{3000}".to_string();
    assert!(!input.is_filled_in());
    input.user_name = "  bob ".to_string();
    assert!(input.is_filled_in());
    assert_eq!(input.destination, LoginDestination::Last);
}

#[test]
fn zeroize_empties_password() {
    let mut input = LoginDialogInput::default();
    input.user_name = "bob".to_string();
    input.password = "secret".to_string();
    input.zeroize();
    assert!(input.password.is_empty());
    assert_eq!(input.user_name, "bob");
}

#[test]
fn white_space_matches_std() {
    for u in 0u32..=0x10FFFF {
        if let Some(c) = char::from_u32(u) {
            assert_eq!(is_white_space(c), c.is_whitespace(), "U+{:04X}", u);
        }
    }
}

#[test]
fn first_chars_of_text() {
    assert_eq!(first_n_chars("héllo", 2), "hé");
    assert_eq!(first_n_chars("héllo", 10), "héllo");
    assert_eq!(first_n_chars("", 3), "");
    assert_eq!(first_n_chars("abc", 0), "");
}

fn agni() -> libui::GridSelectParamsData {
    libui::GridSelectParamsData {
        metaverse: "Second Life".to_string(),
        grid: "agni.lindenlab/com".to_string(),
        picture_bar: String::new(),
        home_url: String::new(),
        join_url: None,
        login_url: Some("https://login.agni".to_string()),
        comment: None,
    }
}

#[test]
fn credential_keys_are_prepared() {
    assert_eq!(LoginParams::prep_string(" Second Life "), "secondlife");
    assert_eq!(LoginParams::prep_string("A.b/C"), "a#b|c");
    assert_eq!(LoginParams::translate_special_characters('.'), '#');
    assert_eq!(LoginParams::translate_special_characters('x'), 'x');
    let p = LoginParams::new(agni(), LoginDestination::Last, "Bob".to_string());
    assert_eq!(p.get_service(CRED_TYPE_PASS), "metaverse/secondlife/agni#lindenlab|com/pass");
}

#[test]
fn password_is_stored_as_prefixed_md5() {
    let mut p = LoginParams::new(agni(), LoginDestination::Home, "bob".to_string());
    assert_eq!(p.get_password_md5(), None);
    p.set_password("  secret \n");
    assert_eq!(p.get_password_md5(), Some("$1$5ebe2294ecd0e0f08eab7690d2a6ee69".to_string()));
    p.set_password("");
    assert_eq!(p.get_password_md5(), None);
    p.set_password_md5(Some([0u8; 16]));
    assert_eq!(p.get_password_md5(), Some(format!("$1${}", "0".repeat(32))));
}

#[test]
fn hex_and_trim() {
    assert_eq!(to_hex(&[0x00, 0xab, 0x7f]), "00ab7f");
    assert_eq!(trim("  a b \t"), "a b");
    assert_eq!(trim(" \u{3000} "), "");
    assert_eq!(trim("x"), "x");
}
