use wallrotate::probe::parse_query_output;

fn v(s: &str) -> Vec<u8> {
    s.as_bytes().to_vec()
}

#[test]
fn parses_sample_status_line() {
    let out = v("DP-1: 2560x1080, scale: 2, currently displaying: image: /home/x/a.jpg");
    assert_eq!(parse_query_output(&out), Some(v("/home/x/a.jpg")));
}

#[test]
fn no_marker_means_unknown() {
    let out = v("DP-1: 2560x1080, scale: 2, currently displaying: color: 000000");
    assert_eq!(parse_query_output(&out), None);
    assert_eq!(parse_query_output(&v("")), None);
}

#[test]
fn finds_marker_on_a_later_line() {
    let out = v("HDMI-A-1: 1920x1080, no image\nDP-1: 2560x1080, currently displaying: image: /tmp/b.png\n");
    assert_eq!(parse_query_output(&out), Some(v("/tmp/b.png")));
}

#[test]
fn first_matching_line_wins() {
    let out = v("DP-1: currently displaying: image: /one.jpg\nDP-2: currently displaying: image: /two.jpg\n");
    assert_eq!(parse_query_output(&out), Some(v("/one.jpg")));
}

#[test]
fn path_is_trimmed_of_whitespace() {
    let out = v("DP-1: currently displaying: image:   /pad.gif \r\nrest");
    assert_eq!(parse_query_output(&out), Some(v("/pad.gif")));
}

#[test]
fn marker_with_nothing_after_gives_empty_path() {
    let out = v("DP-1: currently displaying: image: \n");
    assert_eq!(parse_query_output(&out), Some(Vec::new()));
}
