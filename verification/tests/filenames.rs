use carrier::filename::{
    is_unsafe_download, percent_decode, percent_decode_bytes, sanitize_filename, unique_path,
    PathStep, NAME_ATTEMPTS,
};

#[test]
fn sanitize_blocks_traversal_and_windows_drive() {
    let a = sanitize_filename("../../etc/passwd");
    assert!(!a.contains('/') && !a.contains('\\'));
    let b = sanitize_filename("C:evil.exe");
    assert!(!b.contains(':'));
    assert_eq!(sanitize_filename("   "), "download");
    assert_eq!(sanitize_filename("..."), "download");
    assert_eq!(sanitize_filename("photo.png"), "photo.png");
}

#[test]
fn unsafe_download_blocks_all_listed_executable_extensions() {
    let blocked = [
        "malware.exe",
        "setup.msi",
        "run.bat",
        "run.cmd",
        "trojan.com",
        "screen.scr",
        "evil.ps1",
        "script.vbs",
        "script.vbe",
        "payload.js",
        "payload.jse",
        "config.wsf",
        "config.wsh",
        "app.hta",
        "installer.dmg",
        "package.pkg",
        "bundle.app",
        "run.command",
        "autorun.scpt",
        "start.sh",
        "start.bash",
        "start.zsh",
        "start.run",
        "payload.bin",
        "library.jar",
        "webstart.jnlp",
        "package.deb",
        "package.rpm",
        "portable.appimage",
    ];
    for name in &blocked {
        assert!(
            is_unsafe_download(name),
            "expected {name} to be blocked as unsafe"
        );
    }
}

#[test]
fn unsafe_download_allows_safe_media_and_document_extensions() {
    let allowed = [
        "photo.jpg",
        "image.jpeg",
        "picture.png",
        "animation.gif",
        "photo.webp",
        "clip.mp4",
        "video.mov",
        "video.avi",
        "audio.mp3",
        "audio.wav",
        "audio.ogg",
        "document.pdf",
        "spreadsheet.xlsx",
        "presentation.pptx",
        "archive.zip",
        "archive.tar",
        "archive.gz",
        "archive.7z",
        "text.txt",
        "data.csv",
        "data.json",
    ];
    for name in &allowed {
        assert!(
            !is_unsafe_download(name),
            "expected {name} to be allowed (safe extension)"
        );
    }
}

#[test]
fn unsafe_download_is_case_insensitive() {
    assert!(is_unsafe_download("VIRUS.EXE"));
    assert!(is_unsafe_download("Script.Ps1"));
    assert!(is_unsafe_download("Payload.SH"));
    assert!(!is_unsafe_download("Photo.PNG"));
    assert!(!is_unsafe_download("Clip.MP4"));
}

#[test]
fn unsafe_download_no_extension_is_safe() {
    assert!(!is_unsafe_download("filenoext"));
    assert!(!is_unsafe_download("download"));
}

#[test]
fn unsafe_download_dotfile_edge_cases() {
    assert!(is_unsafe_download(".sh"));
    assert!(!is_unsafe_download(".gitignore"));
    assert!(is_unsafe_download("setup.tar.exe"));
    assert!(!is_unsafe_download("setup.exe.zip"));
}

#[test]
fn percent_decode_handles_encoded_chars() {
    assert_eq!(percent_decode("hello%20world"), "hello world");
    assert_eq!(percent_decode("photo%2Fname.jpg"), "photo/name.jpg");
    assert_eq!(percent_decode("%2F%00"), "/\0");
}

#[test]
fn percent_decode_leaves_plain_text_unchanged() {
    assert_eq!(percent_decode("photo.png"), "photo.png");
    assert_eq!(percent_decode(""), "");
}

#[test]
fn percent_decode_incomplete_sequence_is_kept_literally() {
    assert_eq!(percent_decode("abc%"), "abc%");
    assert_eq!(percent_decode("abc%2"), "abc%2");
}

#[test]
fn percent_decode_of_odd_escapes() {
    // Hexadecimal digits of either case, and a sign in place of the first one.
    assert_eq!(percent_decode_bytes("%aF"), vec![0xaf]);
    assert_eq!(percent_decode_bytes("%+f"), vec![15]);
    // Anything else stays.
    assert_eq!(percent_decode("%-1"), "%-1");
    assert_eq!(percent_decode("%zz%41"), "%zzA");
    assert_eq!(percent_decode("%%41"), "%A");
    // The bytes need not stay apart, nor form text.
    assert_eq!(percent_decode("caf%C3%A9"), "caf\u{e9}");
    assert_eq!(percent_decode("a%FFb"), "a\u{fffd}b");
    // Text beyond ASCII passes through.
    assert_eq!(percent_decode("%\u{e9}%20\u{e9}"), "%\u{e9} \u{e9}");
    // So does a percent sign or a short escape in front of it.
    assert_eq!(percent_decode("%2\u{e9}"), "%2\u{e9}");
    assert_eq!(percent_decode("%\u{20ac}"), "%\u{20ac}");
    assert_eq!(percent_decode("a%2\u{1f600}%41"), "a%2\u{1f600}A");
}

#[test]
fn sanitize_replaces_each_forbidden_character() {
    assert_eq!(sanitize_filename("a/b\\c\0d:e<f>g\"h|i?j*k"), "a_b_c_d_e_f_g_h_i_j_k");
    assert_eq!(sanitize_filename("../../etc/passwd"), "_.._etc_passwd");
    assert_eq!(sanitize_filename(" \u{3000}.hidden.\t"), "hidden");
    // White space that was behind a dot is not trimmed again.
    assert_eq!(sanitize_filename(".. a"), " a");
    assert_eq!(sanitize_filename(""), "download");
}

#[test]
fn sanitized_names_stay_confined() {
    for name in ["..", ".", "../..", "C:\\x", " . ", "a/../b", "\0", "..\u{a0}"] {
        let clean = sanitize_filename(name);
        assert!(!clean.is_empty());
        assert!(!clean.starts_with('.') && !clean.ends_with('.'));
        assert!(!clean.contains(['/', '\\', ':', '\0']));
    }
}

fn probe(step: PathStep) -> String {
    match step {
        PathStep::Probe(name) => name,
        PathStep::Use(name) => panic!("expected a probe, got {name}"),
    }
}

fn used(step: PathStep) -> String {
    match step {
        PathStep::Use(name) => name,
        PathStep::Probe(name) => panic!("expected a name, got a probe of {name}"),
    }
}

#[test]
fn unique_path_numbers_taken_names() {
    assert_eq!(used(unique_path("photo.png", 0, false)), "photo.png");
    assert_eq!(probe(unique_path("photo.png", 0, true)), "photo (1).png");
    assert_eq!(used(unique_path("photo.png", 1, false)), "photo (1).png");
    assert_eq!(probe(unique_path("a.tar.gz", 9, true)), "a.tar (10).gz");
    assert_eq!(probe(unique_path("README", 1, true)), "README (2)");
    // A name that only starts with a dot has no extension; one that ends with
    // a dot has an empty one.
    assert_eq!(probe(unique_path(".profile", 0, true)), ".profile (1)");
    assert_eq!(probe(unique_path("odd.", 0, true)), "odd (1).");
    assert_eq!(probe(unique_path("...", 0, true)), ".. (1).");
    // Any character may stand in it.
    assert_eq!(probe(unique_path("12:30.png", 0, true)), "12:30 (1).png");
    assert_eq!(probe(unique_path("a\\b.png", 3, true)), "a\\b (4).png");
    // What names no file is numbered as a download.
    for nameless in ["", ".", ".."] {
        assert_eq!(probe(unique_path(nameless, 0, true)), "download (1)");
        assert_eq!(used(unique_path(nameless, 0, false)), nameless);
    }
}

#[test]
fn unique_path_gives_up_at_the_last_number() {
    assert_eq!(probe(unique_path("a.b", NAME_ATTEMPTS - 2, true)), "a (9999).b");
    assert_eq!(used(unique_path("a.b", NAME_ATTEMPTS - 1, true)), "a.b");
    assert_eq!(used(unique_path("a.b", NAME_ATTEMPTS - 1, false)), "a (9999).b");
}

#[test]
fn unique_path_finds_the_first_free_name() {
    let existing = ["x.txt", "x (1).txt", "x (3).txt"];
    let mut attempt = 0;
    let mut name = String::from("x.txt");
    let found = loop {
        match unique_path("x.txt", attempt, existing.contains(&name.as_str())) {
            PathStep::Use(found) => break found,
            PathStep::Probe(next) => name = next,
        }
        attempt += 1;
    };
    assert_eq!(found, "x (2).txt");
}

#[test]
fn numbered_names_agree_with_the_parts_of_paths() {
    for name in ["a.b", "a.tar.gz", ".profile", "odd.", "...", "..a", ".a.b", "plain", "x:y.z"] {
        let path = std::path::Path::new(name);
        let stem = path.file_stem().unwrap().to_str().unwrap();
        let ext = path
            .extension()
            .map(|e| format!(".{}", e.to_str().unwrap()))
            .unwrap_or_default();
        assert_eq!(probe(unique_path(name, 6, true)), format!("{stem} (7){ext}"));
    }
}

#[test]
fn repeated_saves_are_numbered_in_order() {
    let mut existing: Vec<String> = Vec::new();
    for k in 0..30 {
        let mut attempt = 0;
        let mut name = String::from("x:1.png");
        let found = loop {
            match unique_path("x:1.png", attempt, existing.contains(&name)) {
                PathStep::Use(found) => break found,
                PathStep::Probe(next) => name = next,
            }
            attempt += 1;
        };
        let expected =
            if k == 0 { "x:1.png".to_string() } else { format!("x:1 ({k}).png") };
        assert_eq!(found, expected);
        existing.push(found);
    }
}
