use base64::Engine;
use carrier::notify::{
    avatar_payload, avatar_png, compose_notification, is_activation, is_avatar_image, shows_body,
    tray_tooltip, unread_count, NotifyMsg, MAX_AVATAR_BYTES, MAX_AVATAR_TEXT,
};
use carrier::update::{
    after_check, after_install, is_announced, InstallStep, UpdateCheck, UpdateStep,
};

const PNG_MAGIC: &[u8] = b"\x89PNG\r\n\x1a\n";

fn data_url(bytes: &[u8]) -> String {
    format!(
        "data:image/png;base64,{}",
        base64::engine::general_purpose::STANDARD.encode(bytes)
    )
}

fn png_of_size(size: usize) -> Vec<u8> {
    let mut bytes = PNG_MAGIC.to_vec();
    while bytes.len() < size {
        bytes.push((bytes.len() % 251) as u8);
    }
    bytes
}

#[test]
fn avatar_data_url_is_decoded_to_a_temp_png() {
    // "iVBORw0KGgo=" is base64 for the 8-byte PNG magic header; the helper
    // requires real PNG bytes (it checks the magic header), so we can assert
    // the exact contents round-trip.
    let png_magic: &[u8] = b"\x89PNG\r\n\x1a\n";
    let written = avatar_png("data:image/png;base64,iVBORw0KGgo=")
        .expect("a well-formed PNG data URL decodes to a file");
    assert_eq!(written, png_magic);
}

#[test]
fn avatar_decode_rejects_malformed_input() {
    // Not a data URL at all.
    assert!(avatar_png("").is_none());
    assert!(avatar_png("https://example.com/a.png").is_none());
    // A data URL, but not an image media type.
    assert!(avatar_png("data:text/plain;base64,aGVsbG8=").is_none());
    // Image, but not base64-encoded (no `;base64,` marker).
    assert!(avatar_png("data:image/png,aGVsbG8=").is_none());
    // Present but empty payload → nothing to attach.
    assert!(avatar_png("data:image/png;base64,").is_none());
    // Garbage that isn't valid base64.
    assert!(avatar_png("data:image/png;base64,!!not-base64!!").is_none());
    // Valid base64, but the decoded bytes aren't a PNG (no magic header).
    assert!(avatar_png("data:image/png;base64,aGVsbG8=").is_none());
    // Real PNG bytes, but a non-PNG image subtype is rejected at the prefix.
    assert!(avatar_png("data:image/jpeg;base64,iVBORw0KGgo=").is_none());
}

#[test]
fn avatar_decode_rejects_oversized_payload() {
    // A base64 body far larger than any real 64×64 avatar is rejected
    // before it's decoded, so a hostile page can't force a huge write.
    let huge = format!("data:image/png;base64,{}", "A".repeat(4 << 20));
    assert!(avatar_png(&huge).is_none());
}

#[test]
fn small_pngs_come_through_unchanged() {
    for size in [8, 9, 10, 11, 100, 4096] {
        let png = png_of_size(size);
        assert_eq!(avatar_png(&data_url(&png)), Some(png));
    }
}

#[test]
fn the_largest_avatar_is_accepted_and_no_larger_one() {
    assert_eq!(MAX_AVATAR_BYTES, 1 << 20);
    assert_eq!(MAX_AVATAR_TEXT, (1 << 20) / 3 * 4 + 4);
    let largest = png_of_size(MAX_AVATAR_BYTES);
    assert_eq!(avatar_png(&data_url(&largest)), Some(largest));
    // Two bytes more still fit in the text, and are refused once decoded.
    let larger = png_of_size(MAX_AVATAR_BYTES + 2);
    assert!(avatar_payload(&data_url(&larger)).is_some());
    assert!(avatar_png(&data_url(&larger)).is_none());
    let too_long = png_of_size(MAX_AVATAR_BYTES + 3);
    assert!(avatar_payload(&data_url(&too_long)).is_none());
}

#[test]
fn the_payload_is_trimmed_and_measured_in_bytes() {
    assert_eq!(
        avatar_payload("data:image/png;base64, \n iVBORw0KGgo=\u{a0}\t").as_deref(),
        Some("iVBORw0KGgo=")
    );
    assert_eq!(avatar_payload("data:image/png;base64,").as_deref(), Some(""));
    assert_eq!(avatar_payload(" data:image/png;base64,iVBORw0KGgo="), None);
    assert_eq!(avatar_payload("DATA:image/png;base64,iVBORw0KGgo="), None);
    let half = MAX_AVATAR_TEXT / 2;
    let fits = format!("data:image/png;base64,{}", "\u{e9}".repeat(half));
    assert!(avatar_payload(&fits).is_some());
    let exceeds = format!("data:image/png;base64,{}", "\u{e9}".repeat(half + 1));
    assert!(avatar_payload(&exceeds).is_none());
}

#[test]
fn only_the_canonical_base64_form_is_decoded() {
    let decoded = |text: &str| avatar_png(&format!("data:image/png;base64,{text}"));
    assert!(decoded("iVBORw0KGgo=").is_some());
    // No padding, too much of it, stray bits in the last digit, a gap, and the
    // digits of other alphabets.
    assert!(decoded("iVBORw0KGgo").is_none());
    assert!(decoded("iVBORw0KGgo==").is_none());
    assert!(decoded("iVBORw0KGgp=").is_none());
    assert!(decoded("iVBO Rw0KGgo=").is_none());
    assert!(decoded("iVBORw0KGgr7_w==").is_none());
    // Every kind of digit has its value.
    assert_eq!(decoded("iVBORw0KGgr/+/8="), Some([PNG_MAGIC, &[0xff, 0xfb, 0xff]].concat()));
}

#[test]
fn png_files_by_their_first_bytes() {
    assert!(is_avatar_image(&PNG_MAGIC.to_vec()));
    assert!(is_avatar_image(&png_of_size(1000)));
    assert!(!is_avatar_image(&Vec::new()));
    assert!(!is_avatar_image(&PNG_MAGIC[..7].to_vec()));
    for i in 0..8 {
        let mut bytes = png_of_size(20);
        bytes[i] ^= 1;
        assert!(!is_avatar_image(&bytes));
    }
}

#[test]
fn notifications_are_composed() {
    let shown = compose_notification(NotifyMsg {
        id: 7,
        title: "Jane".to_string(),
        body: "hi there".to_string(),
        icon: "data:image/png;base64,iVBORw0KGgo=".to_string(),
    });
    assert_eq!(shown.id, 7);
    assert_eq!(shown.title, "Jane");
    assert_eq!(shown.body, "hi there");
    assert_eq!(shown.image.as_deref(), Some(PNG_MAGIC));

    let bare = compose_notification(NotifyMsg::default());
    assert_eq!(bare.id, 0);
    assert_eq!(bare.title, "Messenger");
    assert_eq!(bare.body, "");
    assert_eq!(bare.image, None);

    // A blank sender is replaced; one with blanks around it is kept as it is.
    let blank = NotifyMsg { title: " \u{2003}\n".to_string(), ..Default::default() };
    assert_eq!(compose_notification(blank).title, "Messenger");
    let padded = NotifyMsg { title: " J ".to_string(), ..Default::default() };
    assert_eq!(compose_notification(padded).title, " J ");
}

#[test]
fn an_empty_text_is_left_out() {
    assert!(!shows_body(""));
    assert!(shows_body(" "));
    assert!(shows_body("hi"));
}

#[test]
fn anything_but_a_dismissal_activates() {
    assert!(!is_activation("__closed"));
    assert!(is_activation("default"));
    assert!(is_activation(""));
    assert!(is_activation("__closed "));
}

#[test]
fn unread_messages_in_the_tooltip() {
    assert_eq!(tray_tooltip("Carrier", "3"), "Carrier — 3 unread");
    assert_eq!(tray_tooltip("Carrier", " +12\n"), "Carrier — 12 unread");
    assert_eq!(tray_tooltip("Carrier", "0"), "Carrier");
    assert_eq!(tray_tooltip("Carrier", "-5"), "Carrier");
    assert_eq!(tray_tooltip("Carrier", "null"), "Carrier");
    assert_eq!(
        tray_tooltip("Carrier (debug)", "9223372036854775807"),
        "Carrier (debug) — 9223372036854775807 unread"
    );
    assert_eq!(tray_tooltip("Carrier", "9223372036854775808"), "Carrier");
}

#[test]
fn unread_counts_are_read_as_integers() {
    for report in [
        "", "0", "7", "+7", "-7", "007", " 42 ", "\u{a0}42\u{3000}", "4 2", "1.5", "--1", "+", "-",
        "9223372036854775807", "9223372036854775808", "-9223372036854775808",
        "-9223372036854775809", "99999999999999999999999999", "\u{661}",
    ] {
        let expected: i64 = report.trim().parse().unwrap_or(0);
        assert_eq!(unread_count(report), expected, "{report:?}");
    }
}

#[test]
fn update_checks() {
    assert!(matches!(after_check(UpdateCheck::Available), UpdateStep::Install));
    match after_check(UpdateCheck::UpToDate) {
        UpdateStep::Reply(reply) => {
            assert_eq!(reply, Ok("up-to-date".to_string()));
            assert!(is_announced(&reply));
        }
        UpdateStep::Install => panic!("nothing to install"),
    }
    match after_check(UpdateCheck::Failed("offline".to_string())) {
        UpdateStep::Reply(reply) => {
            assert_eq!(reply, Err("offline".to_string()));
            assert!(!is_announced(&reply));
        }
        UpdateStep::Install => panic!("nothing to install"),
    }
    assert!(!is_announced(&Ok("other".to_string())));
    assert!(!is_announced(&Err("up-to-date".to_string())));
}

#[test]
fn installations() {
    assert!(matches!(after_install(Ok(())), InstallStep::Restart));
    match after_install(Err("bad signature".to_string())) {
        InstallStep::Reply(reason) => assert_eq!(reason, "bad signature"),
        InstallStep::Restart => panic!("no restart after a failure"),
    }
}
