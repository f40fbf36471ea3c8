use colorify::file_name::export_file_name;
use colorify::messages::{exported_message, opened_message};
use colorify::powershell::{create_shortcut_script, powershell_string, shortcut_arguments_script};
use colorify::profiles::{fill_with_defaults, imported_profiles};
use colorify::safe_file_name;
use colorify::shell::{menu_action, starts_minimized, MenuAction};
use colorify::startup::{
    command_text_result, shortcut_arguments_for, startup_disabled_message,
    startup_enabled_message, startup_settings, StartupSettings,
};
use colorify::text::{contains_text, is_whitespace_char, text_equals, trim_whitespace};
use colorify::wallpaper::{data_url, image_data_url, image_mime_type, mime_type_for_extension};

#[test]
fn safe_file_name_replaces_reserved_characters() {
    assert_eq!(safe_file_name("a<b>c:d\"e/f\\g|h?i*j"), "a_b_c_d_e_f_g_h_i_j");
}

#[test]
fn safe_file_name_trims_whitespace() {
    assert_eq!(safe_file_name("  Cinema Warm \t\n"), "Cinema Warm");
    assert_eq!(safe_file_name("\u{3000}Night\u{a0}"), "Night");
}

#[test]
fn safe_file_name_falls_back_when_nothing_is_left() {
    assert_eq!(safe_file_name(""), "Colorify profile");
    assert_eq!(safe_file_name("   "), "Colorify profile");
}

#[test]
fn safe_file_name_keeps_replaced_characters_at_the_edges() {
    assert_eq!(safe_file_name("??"), "__");
    assert_eq!(safe_file_name(" /x/ "), "_x_");
}

#[test]
fn safe_file_name_is_idempotent_on_examples() {
    for name in ["", " a ", "FPS Visibility", "x:y", "\t?\t", "Colorify profile"] {
        let once = safe_file_name(name);
        assert_eq!(safe_file_name(&once), once);
    }
}

#[test]
fn safe_file_name_result_is_well_formed_on_examples() {
    for name in ["", " <> ", "a|b", " \u{2003}", "Digital Vibrance"] {
        let r = safe_file_name(name);
        assert!(!r.is_empty());
        assert_eq!(r.trim(), r);
        assert!(!r.chars().any(|c| "<>:\"/\\|?*".contains(c)));
    }
}

#[test]
fn export_file_name_adds_json_extension() {
    assert_eq!(export_file_name("Black Equalizer"), "Black Equalizer.json");
    assert_eq!(export_file_name(" "), "Colorify profile.json");
    assert_eq!(export_file_name("a/b"), "a_b.json");
}

#[test]
fn trim_whitespace_agrees_with_str_trim() {
    for s in ["", " ", "a", " a ", "\t\na b\r\n", "\u{85}x\u{2028}", "\u{200b}x", "\u{1680} y \u{205f}"] {
        assert_eq!(trim_whitespace(s), s.trim());
    }
}

#[test]
fn whitespace_agrees_with_char_is_whitespace() {
    for code in 0u32..0x3100 {
        if let Some(c) = char::from_u32(code) {
            assert_eq!(is_whitespace_char(c), c.is_whitespace(), "{:#x}", code);
        }
    }
}

#[test]
fn trim_whitespace_is_idempotent_on_examples() {
    for s in ["  x  ", "\u{3000}", "a b"] {
        let once = trim_whitespace(s);
        assert_eq!(trim_whitespace(&once), once);
    }
}

#[test]
fn contains_text_agrees_with_str_contains() {
    let cases = [
        ("--start-minimized", "--start-minimized"),
        ("", "--start-minimized"),
        ("x --start-minimized y", "--start-minimized"),
        ("--start-minimize", "--start-minimized"),
        ("abc", ""),
        ("", ""),
        ("aab", "ab"),
    ];
    for (h, n) in cases {
        assert_eq!(contains_text(h, n), h.contains(n), "{h:?} {n:?}");
    }
}

#[test]
fn powershell_string_doubles_single_quotes() {
    assert_eq!(powershell_string("C:\\Program Files\\Colorify"), "'C:\\Program Files\\Colorify'");
    assert_eq!(powershell_string("O'Brien"), "'O''Brien'");
    assert_eq!(powershell_string(""), "''");
    assert_eq!(powershell_string("''"), "''''''");
}

#[test]
fn powershell_string_is_injective_on_examples() {
    let values = ["", "'", "''", "a'b", "a''b", "ab"];
    for a in values {
        for b in values {
            assert_eq!(powershell_string(a) == powershell_string(b), a == b);
        }
    }
}

#[test]
fn shortcut_arguments_script_text() {
    assert_eq!(
        shortcut_arguments_script("C:\\S\\Colorify.lnk"),
        "$shell = New-Object -ComObject WScript.Shell; $shortcut = $shell.CreateShortcut('C:\\S\\Colorify.lnk'); Write-Output $shortcut.Arguments"
    );
}

#[test]
fn create_shortcut_script_text() {
    assert_eq!(
        create_shortcut_script("s.lnk", "c.exe", "--start-minimized", "d'ir"),
        "$shell = New-Object -ComObject WScript.Shell; $shortcut = $shell.CreateShortcut('s.lnk'); $shortcut.TargetPath = 'c.exe'; $shortcut.Arguments = '--start-minimized'; $shortcut.WorkingDirectory = 'd''ir'; $shortcut.IconLocation = 'c.exe'; $shortcut.Save()"
    );
}

#[test]
fn startup_settings_without_shortcut() {
    assert_eq!(
        startup_settings(None),
        StartupSettings { enabled: false, start_minimized: false }
    );
}

#[test]
fn startup_settings_with_shortcut() {
    assert_eq!(
        startup_settings(Some("")),
        StartupSettings { enabled: true, start_minimized: false }
    );
    assert_eq!(
        startup_settings(Some("--start-minimized")),
        StartupSettings { enabled: true, start_minimized: true }
    );
    assert_eq!(
        startup_settings(Some("--other --start-minimized")),
        StartupSettings { enabled: true, start_minimized: true }
    );
}

#[test]
fn startup_arguments_round_trip() {
    for minimized in [false, true] {
        let written = shortcut_arguments_for(minimized);
        let read_back = trim_whitespace(written);
        assert_eq!(
            startup_settings(Some(&read_back)),
            StartupSettings { enabled: true, start_minimized: minimized }
        );
    }
}

#[test]
fn shortcut_arguments_text() {
    assert_eq!(shortcut_arguments_for(true), "--start-minimized");
    assert_eq!(shortcut_arguments_for(false), "");
}

#[test]
fn command_text_result_success_trims_stdout() {
    assert_eq!(command_text_result(true, " --start-minimized\r\n", "ignored"), Ok("--start-minimized".to_string()));
}

#[test]
fn command_text_result_failure_trims_stderr() {
    assert_eq!(command_text_result(false, "out", "\r\nAccess denied.\r\n"), Err("Access denied.".to_string()));
}

#[test]
fn startup_messages() {
    assert_eq!(startup_enabled_message(true), "Start with Windows enabled. Colorify will start minimized.");
    assert_eq!(startup_enabled_message(false), "Start with Windows enabled.");
    assert_eq!(startup_disabled_message(), "Start with Windows disabled.");
}

#[test]
fn mime_types_for_supported_extensions() {
    assert_eq!(mime_type_for_extension("png"), Ok("image/png".to_string()));
    assert_eq!(mime_type_for_extension("PNG"), Ok("image/png".to_string()));
    assert_eq!(mime_type_for_extension("jpg"), Ok("image/jpeg".to_string()));
    assert_eq!(mime_type_for_extension("JpEg"), Ok("image/jpeg".to_string()));
    assert_eq!(mime_type_for_extension("webp"), Ok("image/webp".to_string()));
    assert_eq!(mime_type_for_extension("BMP"), Ok("image/bmp".to_string()));
}

#[test]
fn mime_type_rejects_other_extensions() {
    let message = Err("Choose a PNG, JPG, WEBP, or BMP image.".to_string());
    assert_eq!(mime_type_for_extension("gif"), message);
    assert_eq!(mime_type_for_extension(""), message);
    assert_eq!(mime_type_for_extension("pngx"), message);
    assert_eq!(mime_type_for_extension("p\u{130}ng"), message);
}

#[test]
fn image_mime_type_reads_the_extension_of_a_path() {
    assert_eq!(image_mime_type("wallpapers/sunset.JPG"), Ok("image/jpeg".to_string()));
    assert_eq!(image_mime_type("a.b/c.webp"), Ok("image/webp".to_string()));
    assert_eq!(image_mime_type("archive.tar.bmp"), Ok("image/bmp".to_string()));
}

#[test]
fn image_mime_type_without_a_usable_extension() {
    let message = Err("Choose a PNG, JPG, WEBP, or BMP image.".to_string());
    assert_eq!(image_mime_type("wallpaper"), message);
    assert_eq!(image_mime_type(".png"), message);
    assert_eq!(image_mime_type("picture.gif"), message);
}

#[test]
fn data_url_text() {
    assert_eq!(data_url("image/png", "aGk="), "data:image/png;base64,aGk=");
}

#[test]
fn image_data_url_encodes_the_bytes() {
    assert_eq!(image_data_url("image/png", b"hi"), "data:image/png;base64,aGk=");
    assert_eq!(image_data_url("image/bmp", b""), "data:image/bmp;base64,");
    assert_eq!(image_data_url("image/jpeg", &[0xff, 0x00, 0x10]), "data:image/jpeg;base64,/wAQ");
}

#[test]
fn fill_with_defaults_fills_only_an_empty_list() {
    let mut empty: Vec<u32> = Vec::new();
    fill_with_defaults(&mut empty, vec![1, 2]);
    assert_eq!(empty, vec![1, 2]);
    let mut stored = vec![7];
    fill_with_defaults(&mut stored, vec![1, 2]);
    assert_eq!(stored, vec![7]);
}

#[test]
fn fill_with_defaults_twice_is_once() {
    let mut list: Vec<u32> = Vec::new();
    fill_with_defaults(&mut list, vec![3]);
    let once = list.clone();
    fill_with_defaults(&mut list, vec![3]);
    assert_eq!(list, once);
}

#[test]
fn status_messages() {
    assert_eq!(opened_message("C:\\Data\\Colorify"), "Opened C:\\Data\\Colorify.");
    assert_eq!(exported_message("p.json"), "Exported p.json.");
}

#[test]
fn imported_profiles_prefers_the_export_file_shape() {
    assert_eq!(imported_profiles(Some(vec![1u8, 2]), Some(vec![3]), Some(4)), Ok(vec![1, 2]));
    assert_eq!(imported_profiles(None, Some(vec![3u8]), Some(4)), Ok(vec![3]));
    assert_eq!(imported_profiles::<u8>(None, None, Some(4)), Ok(vec![4]));
    assert_eq!(imported_profiles(Some(Vec::<u8>::new()), None, None), Ok(vec![]));
}

#[test]
fn imported_profiles_rejects_other_files() {
    assert_eq!(
        imported_profiles::<u8>(None, None, None),
        Err("That JSON file does not look like a Colorify profile export.".to_string())
    );
}

#[test]
fn image_mime_type_of_bare_file_names() {
    let message = Err("Choose a PNG, JPG, WEBP, or BMP image.".to_string());
    assert_eq!(image_mime_type("photo.png"), Ok("image/png".to_string()));
    assert_eq!(image_mime_type("photo.PNG"), Ok("image/png".to_string()));
    assert_eq!(image_mime_type("..png"), Ok("image/png".to_string()));
    assert_eq!(image_mime_type("x.tar.bmp"), Ok("image/bmp".to_string()));
    assert_eq!(image_mime_type("photo.png.gif"), message);
    assert_eq!(image_mime_type("photo."), message);
    assert_eq!(image_mime_type(".."), message);
    assert_eq!(image_mime_type("."), message);
    assert_eq!(image_mime_type(""), message);
}

#[test]
fn image_mime_type_of_full_paths() {
    let message = Err("Choose a PNG, JPG, WEBP, or BMP image.".to_string());
    assert_eq!(image_mime_type("C:\\Users\\me\\Pictures\\photo.png"), Ok("image/png".to_string()));
    assert_eq!(image_mime_type("C:/Users/me/Pictures/night.JPEG"), Ok("image/jpeg".to_string()));
    assert_eq!(image_mime_type("/home/me/walls/a.b.webp"), Ok("image/webp".to_string()));
    assert_eq!(image_mime_type("C:\\Users\\me\\photo.gif"), message);
    assert_eq!(image_mime_type("/home/me/pics.d/README"), message);
}

#[test]
fn image_mime_type_of_prefixed_paths() {
    assert_eq!(image_mime_type("\\\\nas\\share\\beach.png"), Ok("image/png".to_string()));
    assert_eq!(image_mime_type("\\\\?\\C:\\pics\\a.png"), Ok("image/png".to_string()));
    assert_eq!(
        image_mime_type("\\\\?\\UNC\\nas\\share\\dir\\b.BMP"),
        Ok("image/bmp".to_string())
    );
}

#[test]
fn image_mime_type_when_the_dot_is_in_a_directory() {
    let message = Err("Choose a PNG, JPG, WEBP, or BMP image.".to_string());
    assert_eq!(image_mime_type("C:\\pics.png\\readme"), message);
    assert_eq!(image_mime_type("/home/me/a.jpg/photo"), message);
}

#[test]
fn menu_actions() {
    assert_eq!(menu_action("open"), MenuAction::ShowWindow);
    assert_eq!(menu_action("quit"), MenuAction::Quit);
    assert_eq!(menu_action("Open"), MenuAction::Ignore);
    assert_eq!(menu_action(""), MenuAction::Ignore);
}

#[test]
fn start_minimized_argument() {
    let args = |list: &[&str]| list.iter().map(|s| s.to_string()).collect::<Vec<String>>();
    assert!(starts_minimized(&args(&["colorify.exe", "--start-minimized"])));
    assert!(!starts_minimized(&args(&["colorify.exe"])));
    assert!(!starts_minimized(&args(&["colorify.exe", "--start-minimized=1"])));
    assert!(!starts_minimized(&args(&[])));
}

#[test]
fn text_equality() {
    assert!(text_equals("quit", "quit"));
    assert!(!text_equals("quit", "quits"));
    assert!(!text_equals("quit", "Quit"));
    assert!(text_equals("", ""));
}
