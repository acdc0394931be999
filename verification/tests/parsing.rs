use magic_cursor::parse::contains_subslice;
use magic_cursor::parse::parse_display_dimensions;
use magic_cursor::parse::parse_i32;
use magic_cursor::parse::parse_i32_or;
use magic_cursor::parse::parse_mouse_location;
use magic_cursor::parse::second_token;
use magic_cursor::parse::split_lines;
use magic_cursor::permission::check_overlay_permission;

#[test]
fn integers_parse_exactly() {
    assert_eq!(parse_i32(b"123"), Some(123));
    assert_eq!(parse_i32(b"-42"), Some(-42));
    assert_eq!(parse_i32(b"+7"), Some(7));
    assert_eq!(parse_i32(b"0"), Some(0));
    assert_eq!(parse_i32(b"007"), Some(7));
    assert_eq!(parse_i32(b"-0"), Some(0));
}

#[test]
fn malformed_integers_parse_to_nothing() {
    assert_eq!(parse_i32(b""), None);
    assert_eq!(parse_i32(b"-"), None);
    assert_eq!(parse_i32(b"+"), None);
    assert_eq!(parse_i32(b"12a"), None);
    assert_eq!(parse_i32(b" 1"), None);
    assert_eq!(parse_i32(b"1 "), None);
    assert_eq!(parse_i32(b"--5"), None);
}

#[test]
fn integers_at_the_32_bit_edge() {
    assert_eq!(parse_i32(b"2147483647"), Some(i32::MAX));
    assert_eq!(parse_i32(b"2147483648"), None);
    assert_eq!(parse_i32(b"-2147483648"), Some(i32::MIN));
    assert_eq!(parse_i32(b"-2147483649"), None);
    assert_eq!(parse_i32(b"99999999999999999999"), None);
}

#[test]
fn fallback_parsing_keeps_the_default() {
    assert_eq!(parse_i32_or(b"640", 1920), 640);
    assert_eq!(parse_i32_or(b"wide", 1920), 1920);
    assert_eq!(parse_i32_or(b"", 1080), 1080);
}

#[test]
fn substring_search_finds_inner_matches() {
    assert!(contains_subslice(b"hello world", b"lo w"));
    assert!(contains_subslice(b"abc", b""));
    assert!(contains_subslice(b"abc", b"abc"));
    assert!(!contains_subslice(b"abc", b"abd"));
    assert!(!contains_subslice(b"ab", b"abc"));
}

#[test]
fn lines_split_at_line_feeds() {
    let lines = split_lines(b"a\nbb\n\nc");
    let views: Vec<&[u8]> = lines.iter().map(|l| l.as_slice()).collect();
    assert_eq!(views, vec![b"a" as &[u8], b"bb", b"", b"c"]);
    let lines = split_lines(b"a\n");
    assert_eq!(lines.len(), 1);
    assert_eq!(lines[0].as_slice(), b"a");
    assert_eq!(split_lines(b"").len(), 0);
}

#[test]
fn second_whitespace_token_is_extracted() {
    assert_eq!(
        second_token(b"  dimensions:    1280x800 pixels").as_deref(),
        Some(b"1280x800" as &[u8])
    );
    assert_eq!(second_token(b"one"), None);
    assert_eq!(second_token(b"   "), None);
    assert_eq!(second_token(b""), None);
}

#[test]
fn display_dimensions_come_from_the_marker_line() {
    let out = b"name of display: :0\n\
screen #0:\n\
  dimensions:    2560x1440 pixels (677x381 millimeters)\n\
  resolution:    96x96 dots per inch\n";
    assert_eq!(parse_display_dimensions(out), (2560, 1440));
}

#[test]
fn display_dimensions_fall_back_without_a_marker() {
    assert_eq!(parse_display_dimensions(b"no geometry here\nat all\n"), (1920, 1080));
    assert_eq!(parse_display_dimensions(b""), (1920, 1080));
}

#[test]
fn display_dimensions_fall_back_on_malformed_tokens() {
    // second token has no separator
    assert_eq!(parse_display_dimensions(b"  dimensions: garbage pixels\n"), (1920, 1080));
    // sides that are no numbers keep their defaults one by one
    assert_eq!(parse_display_dimensions(b"  dimensions: ax800\n"), (1920, 800));
    assert_eq!(parse_display_dimensions(b"  dimensions: 1024xb\n"), (1024, 1080));
    // only the first marker line decides
    assert_eq!(
        parse_display_dimensions(b"  dimensions: 800x600\n  dimensions: 1x1\n"),
        (800, 600)
    );
}

#[test]
fn mouse_location_reads_both_axes() {
    assert_eq!(
        parse_mouse_location(b"X=1024\nY=512\nSCREEN=0\nWINDOW=73400" as &[u8]),
        (1024, 512)
    );
}

#[test]
fn mouse_location_defaults_to_origin() {
    assert_eq!(parse_mouse_location(b""), (0, 0));
    assert_eq!(parse_mouse_location(b"SCREEN=0\nWINDOW=1"), (0, 0));
    // a malformed axis value counts as zero
    assert_eq!(parse_mouse_location(b"X=abc\nY=7"), (0, 7));
    // a later line overwrites an earlier one
    assert_eq!(parse_mouse_location(b"X=1\nX=2\nY=3"), (2, 3));
    // negative coordinates on a monitor left of the primary one
    assert_eq!(parse_mouse_location(b"X=-200\nY=44"), (-200, 44));
}

#[test]
fn overlay_permission_defaults_to_granted() {
    assert!(check_overlay_permission(None));
}

#[test]
fn overlay_permission_follows_the_report() {
    assert!(check_overlay_permission(Some(
        b"SYSTEM_ALERT_WINDOW: allow; rejected=false"
    )));
    assert!(!check_overlay_permission(Some(b"SYSTEM_ALERT_WINDOW: deny")));
    assert!(!check_overlay_permission(Some(b"")));
}
