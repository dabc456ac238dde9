use hotkeyd::text::{
    chars_of, contains, first_token, is_whitespace, matches_at, parse_usize, push_decimal,
    remove_all, slice_of, split_lines, starts_with, string_of,
};
use hotkeyd::tools::context_run::{
    context_run, Awaited, ContextStep, FOCUSED_PROCESS_ID, FOCUSED_WINDOW_NAME,
};
use hotkeyd::tools::sound::{
    cycle_from, cycle_sinks, find_description, get_default_sink_name, get_ids_from_list,
    get_sink_id_by_name, get_sink_inputs, get_sink_name, get_sinks, move_sink_inputs,
    set_default_sink, sink_name_from_match,
    LIST_SINKS, LIST_SINKS_SHORT, LIST_SINK_INPUTS, SERVER_INFO,
};
use hotkeyd::tools::urxvt::{Color, Urxvt};

fn chars(s: &str) -> Vec<char> {
    s.chars().collect()
}

fn lines_of(s: &str) -> Vec<String> {
    split_lines(&chars(s)).iter().map(|line| line.iter().collect::<String>()).collect()
}

#[test]
fn chars_and_strings_convert_both_ways() {
    assert_eq!(chars_of("a\u{e9}\u{1F600}"), vec!['a', '\u{e9}', '\u{1F600}']);
    assert_eq!(chars_of(""), Vec::<char>::new());
    assert_eq!(string_of(&vec!['x', '\u{3000}', 'y']), "x\u{3000}y");
    assert_eq!(string_of(&Vec::new()), "");
}

#[test]
fn decimal_has_no_leading_zeros() {
    for (n, text) in [
        (0usize, "0"),
        (7, "7"),
        (10, "10"),
        (109, "109"),
        (65535, "65535"),
        (usize::MAX, &usize::MAX.to_string()),
    ] {
        let mut out = String::from("n=");
        push_decimal(&mut out, n);
        assert_eq!(out, format!("n={}", text));
    }
}

#[test]
fn whitespace_is_what_unicode_says() {
    for c in ['\t', '\n', '\u{b}', '\u{c}', '\r', ' ', '\u{85}', '\u{a0}', '\u{1680}', '\u{2000}',
        '\u{200a}', '\u{2028}', '\u{2029}', '\u{202f}', '\u{205f}', '\u{3000}']
    {
        assert!(is_whitespace(c));
    }
    for c in ['a', '0', '\u{8}', '\u{e}', '\u{200b}', '\u{180e}', '\u{feff}', '\u{1f}', '!'] {
        assert!(!is_whitespace(c));
    }
    let mut n: u32 = 0;
    while n < 0x3100 {
        if let Some(c) = char::from_u32(n) {
            assert_eq!(is_whitespace(c), c.is_whitespace());
        }
        n += 1;
    }
}

#[test]
fn numbers_are_read_like_std_reads_them() {
    for text in ["0", "7", "42", "+5", "007", "+", "", "-1", "1 ", " 1", "1a", "١", "++1", "1+",
        "18446744073709551615", "18446744073709551616", "99999999999999999999999", "4294967296"]
    {
        assert_eq!(parse_usize(&chars(text)), text.parse::<usize>().ok());
    }
    assert_eq!(parse_usize(&chars("42")), Some(42));
    assert_eq!(parse_usize(&chars("+5")), Some(5));
    assert_eq!(parse_usize(&chars("+")), None);
    assert_eq!(parse_usize(&chars("")), None);
    assert_eq!(parse_usize(&chars("-1")), None);
}

#[test]
fn lines_end_with_lf_or_crlf() {
    for text in ["", "a", "a\n", "a\nb", "a\n\nb\n", "\n", "\n\n", "a\r\nb\r\n", "a\rb\n", "a\r",
        "\r\n", "\r", "a\n\r", "a\r\r\nb"]
    {
        let expected: Vec<String> = text.lines().map(|l| l.to_string()).collect();
        assert_eq!(lines_of(text), expected);
    }
    assert_eq!(lines_of("a\r\nb\n\nc"), vec!["a", "b", "", "c"]);
    assert_eq!(lines_of("a\n"), vec!["a"]);
    assert_eq!(lines_of("a\r"), vec!["a\r"]);
}

#[test]
fn the_first_token_is_the_first_run_without_white_space() {
    for text in ["", " ", "a", "  ab  cd", "\tx\ty", "ab", "\u{a0}z\u{3000}", " \n "] {
        let expected = text.split_whitespace().next().map(chars);
        assert_eq!(first_token(&chars(text)), expected);
    }
    assert_eq!(first_token(&chars("  12\talsa")), Some(chars("12")));
    assert_eq!(first_token(&chars("   ")), None);
}

#[test]
fn slices_and_searches() {
    let s = chars("hello world");
    assert_eq!(slice_of(&s, 6, 11), chars("world"));
    assert_eq!(slice_of(&s, 3, 3), chars(""));
    assert!(matches_at(&s, &chars("world"), 6));
    assert!(!matches_at(&s, &chars("world"), 5));
    assert!(!matches_at(&s, &chars("world"), 7));
    assert!(!matches_at(&s, &chars("world"), 40));
    assert!(matches_at(&s, &chars(""), 11));
    assert!(!matches_at(&s, &chars(""), 12));
    assert!(starts_with(&s, &chars("hell")));
    assert!(!starts_with(&s, &chars("ello")));
    assert!(starts_with(&s, &chars("")));
    assert!(contains(&s, &chars("o w")));
    assert!(contains(&s, &chars("d")));
    assert!(contains(&s, &chars("")));
    assert!(contains(&chars(""), &chars("")));
    assert!(!contains(&s, &chars("worlds")));
    assert!(!contains(&chars(""), &chars("a")));
}

#[test]
fn remove_all_removes_from_left_to_right() {
    for (text, pat) in [
        ("Default Sink: a", "Default Sink: "),
        ("aaa", "aa"),
        ("abab", "ab"),
        ("xaxbx", "x"),
        ("abc", ""),
        ("", "a"),
        ("abc", "abcd"),
        ("aXbXXc", "X"),
        ("ababa", "aba"),
    ] {
        assert_eq!(remove_all(&chars(text), &chars(pat)), chars(&text.replace(pat, "")));
    }
    assert_eq!(remove_all(&chars("aaa"), &chars("aa")), chars("a"));
    assert_eq!(remove_all(&chars("ababa"), &chars("aba")), chars("ba"));
}

const SHORT: &str = "0\talsa_output.pci-0000_00_1f.3.analog-stereo\tmodule-alsa-card.c\ts16le 2ch 44100Hz\tSUSPENDED\n3\tbluez_sink.AA_BB\tmodule-bluez5-device.c\ts16le 2ch 44100Hz\tRUNNING\n12\talsa_output.usb-mixer\tmodule-alsa-card.c\ts16le 2ch 48000Hz\tIDLE\n";

#[test]
fn ids_are_read_from_a_short_listing() {
    assert_eq!(get_ids_from_list(SHORT), Some(vec![0, 3, 12]));
    assert_eq!(get_ids_from_list(""), Some(vec![]));
    assert_eq!(get_ids_from_list("5"), Some(vec![5]));
    assert_eq!(get_ids_from_list("  +5 x\r\n6\n"), Some(vec![5, 6]));
}

#[test]
fn one_bad_line_spoils_the_listing() {
    assert_eq!(get_ids_from_list("1 a\nx b\n2 c\n"), None);
    assert_eq!(get_ids_from_list("1 a\n\n2 c\n"), None);
    assert_eq!(get_ids_from_list("1 a\n   \n"), None);
    assert_eq!(get_ids_from_list("99999999999999999999999 a\n"), None);
    assert_eq!(get_ids_from_list("-1 a\n"), None);
}

#[test]
fn sinks_and_sink_inputs_default_to_none() {
    assert_eq!(get_sinks(Some(SHORT)), vec![0, 3, 12]);
    assert_eq!(get_sink_inputs(Some("7\t3\t-\tprotocol-native.c\tfloat32le\n")), vec![7]);
    assert_eq!(get_sinks(None), Vec::<usize>::new());
    assert_eq!(get_sink_inputs(None), Vec::<usize>::new());
    assert_eq!(get_sinks(Some("x\n")), Vec::<usize>::new());
    assert_eq!(get_sink_inputs(Some("1\n\n")), Vec::<usize>::new());
}

#[test]
fn the_commands_are_those_of_pactl() {
    assert_eq!(LIST_SINK_INPUTS, "pactl list sink-inputs short");
    assert_eq!(LIST_SINKS_SHORT, "pactl list sinks short");
    assert_eq!(LIST_SINKS, "pactl list sinks");
    assert_eq!(SERVER_INFO, "pactl info");
}

#[test]
fn the_default_sink_is_named_by_its_line() {
    let info = "Server String: /run/user/1000/pulse/native\nDefault Sink: bluez_sink.AA_BB\nDefault Source: alsa_input\n";
    assert_eq!(get_default_sink_name(Some(info)), Some("bluez_sink.AA_BB".to_string()));
    assert_eq!(get_default_sink_name(Some("Default Sink: a\nDefault Sink: b\n")), Some("a".to_string()));
    assert_eq!(
        get_default_sink_name(Some("Default Sink: xDefault Sink: y")),
        Some("xy".to_string())
    );
    assert_eq!(get_default_sink_name(Some("Default Sink: ")), Some(String::new()));
    assert_eq!(get_default_sink_name(Some(" Default Sink: a\n")), None);
    assert_eq!(get_default_sink_name(Some("Default Source: a\n")), None);
    assert_eq!(get_default_sink_name(Some("")), None);
    assert_eq!(get_default_sink_name(None), None);
}

#[test]
fn a_sink_is_found_by_its_name() {
    assert_eq!(get_sink_id_by_name("bluez_sink.AA_BB", Some(SHORT)), Some(3));
    assert_eq!(get_sink_id_by_name("usb-mixer", Some(SHORT)), Some(12));
    // the first line that holds the name decides
    assert_eq!(get_sink_id_by_name("alsa_output", Some(SHORT)), Some(0));
    assert_eq!(get_sink_id_by_name("nothing", Some(SHORT)), None);
    assert_eq!(get_sink_id_by_name("b", Some("a b\n7 b\n")), None);
    assert_eq!(get_sink_id_by_name("", Some("4 x\n")), Some(4));
    assert_eq!(get_sink_id_by_name("x", None), None);
}

const SINKS: &str = "Sink #0\n\tState: SUSPENDED\n\tName: alsa_output.pci\n\tProperties:\n\t\talsa.card = \"0\"\n\t\tdevice.description = \"Built-in Audio Analog Stereo\"\n\t\tdevice.icon_name = \"audio-card-pci\"\n\nSink #3\n\tState: RUNNING\n\tProperties:\n\t\tdevice.description = \"WH-1000XM4\"\n\nSink #4\n\tProperties:\n\t\tdevice.description = unquoted\n";

#[test]
fn the_description_line_follows_the_header_of_the_sink() {
    assert_eq!(
        find_description(SINKS, 0),
        Some(chars("\t\tdevice.description = \"Built-in Audio Analog Stereo\""))
    );
    assert_eq!(find_description(SINKS, 3), Some(chars("\t\tdevice.description = \"WH-1000XM4\"")));
    assert_eq!(find_description(SINKS, 4), Some(chars("\t\tdevice.description = unquoted")));
    assert_eq!(find_description(SINKS, 7), None);
    assert_eq!(find_description("", 0), None);
    assert_eq!(find_description("Sink #1\n\tState: IDLE\n", 1), None);
    // a header is only compared by its beginning
    assert_eq!(
        find_description("Sink #10\n device.description = \"ten\"\n", 1),
        Some(chars(" device.description = \"ten\""))
    );
}

#[test]
fn the_sink_name_is_what_the_pattern_matches() {
    assert_eq!(
        get_sink_name(3, Some(SINKS)),
        Some("\t\tdevice.description = \"WH-1000XM4\"".to_string())
    );
    assert_eq!(
        get_sink_name(0, Some(SINKS)),
        Some("\t\tdevice.description = \"Built-in Audio Analog Stereo\"".to_string())
    );
    assert_eq!(
        get_sink_name(1, Some("Sink #1\ndevice.description = \"K\u{f6}pfh\u{f6}rer\" (x)\n")),
        Some("device.description = \"K\u{f6}pfh\u{f6}rer\" (x)".to_string())
    );
}

#[test]
fn a_description_that_the_pattern_does_not_match_gives_no_name() {
    // the line is found, but holds no quoted text
    assert_eq!(get_sink_name(4, Some(SINKS)), None);
    assert_eq!(get_sink_name(1, Some("Sink #1\ndevice.description = \"open\n")), None);
    assert_eq!(get_sink_name(7, Some(SINKS)), None);
    assert_eq!(get_sink_name(0, None), None);
}

#[test]
fn matched_bytes_become_a_name_only_if_they_are_utf8() {
    assert_eq!(sink_name_from_match(Some(b"abc".to_vec())), Some("abc".to_string()));
    assert_eq!(
        sink_name_from_match(Some("K\u{f6}pfh\u{f6}rer".as_bytes().to_vec())),
        Some("K\u{f6}pfh\u{f6}rer".to_string())
    );
    assert_eq!(sink_name_from_match(Some(vec![])), Some(String::new()));
    assert_eq!(sink_name_from_match(Some(vec![0xff])), None);
    assert_eq!(sink_name_from_match(Some(vec![0xc3])), None);
    assert_eq!(sink_name_from_match(Some(vec![0xed, 0xa0, 0x80])), None);
    assert_eq!(sink_name_from_match(None), None);
}

#[test]
fn the_default_sink_is_set_and_the_streams_are_moved() {
    assert_eq!(set_default_sink(5), "pactl set-default-sink 5");
    assert_eq!(set_default_sink(0), "pactl set-default-sink 0");
    assert_eq!(
        move_sink_inputs(5, &vec![10, 11]),
        vec!["pactl move-sink-input 10 5".to_string(), "pactl move-sink-input 11 5".to_string()]
    );
    assert_eq!(move_sink_inputs(0, &Vec::new()), Vec::<String>::new());
}

#[test]
fn without_a_default_sink_nothing_is_cycled() {
    assert_eq!(cycle_from(false, None, vec![3, 1, 2]), Vec::<usize>::new());
    assert_eq!(cycle_from(true, None, vec![]), Vec::<usize>::new());
    assert_eq!(cycle_from(false, Some(2), vec![3, 1, 2]), vec![3]);
    assert_eq!(cycle_from(true, Some(2), vec![3, 1, 2]), vec![1]);
    assert_eq!(cycle_from(false, Some(9), vec![3, 1, 2]), Vec::<usize>::new());
}

#[test]
fn the_next_sink_follows_the_default_in_ascending_order() {
    assert_eq!(cycle_sinks(false, 2, vec![3, 1, 2]), vec![3]);
    assert_eq!(cycle_sinks(false, 1, vec![3, 1, 2]), vec![2]);
    assert_eq!(cycle_sinks(false, 12, vec![12, 0, 3]), vec![0]);
}

#[test]
fn the_first_sink_follows_the_last() {
    assert_eq!(cycle_sinks(false, 3, vec![3, 1, 2]), vec![1]);
    assert_eq!(cycle_sinks(true, 1, vec![3, 1, 2]), vec![3]);
    assert_eq!(cycle_sinks(false, 4, vec![4]), vec![4]);
    assert_eq!(cycle_sinks(true, 4, vec![4]), vec![4]);
}

#[test]
fn left_walks_in_descending_order() {
    assert_eq!(cycle_sinks(true, 2, vec![3, 1, 2]), vec![1]);
    assert_eq!(cycle_sinks(true, 3, vec![1, 3, 2]), vec![2]);
}

#[test]
fn an_unknown_default_changes_nothing() {
    assert_eq!(cycle_sinks(false, 9, vec![3, 1, 2]), Vec::<usize>::new());
    assert_eq!(cycle_sinks(true, 9, vec![]), Vec::<usize>::new());
}

#[test]
fn a_sink_listed_twice_is_followed_twice() {
    assert_eq!(cycle_sinks(false, 2, vec![3, 2, 2]), vec![2, 3]);
    assert_eq!(cycle_sinks(false, 3, vec![3, 2, 3]), vec![3, 2]);
    assert_eq!(cycle_sinks(true, 2, vec![2, 3, 2]), vec![2, 3]);
}

#[test]
fn a_color_is_written_in_decimal() {
    assert_eq!(Color((1, 2, 3)).to_text(), "#123");
    assert_eq!(Color((255, 0, 16)).to_text(), "#255016");
    assert_eq!(Color((0, 0, 0)).to_text(), "#000");
}

#[test]
fn a_terminal_runs_the_shell() {
    assert_eq!(Urxvt::new(None).run(), "urxvt  -e sh -c ' /bin/sh'");
    assert_eq!(Urxvt::new(Some("/usr/bin/fish".to_string())).run(), "urxvt  -e sh -c ' /usr/bin/fish'");
}

#[test]
fn a_terminal_takes_a_path_and_a_background() {
    let t = Urxvt::new(Some("zsh".to_string())).path("/tmp").bg(Color((1, 2, 3)));
    assert_eq!(t.shell, "zsh");
    assert_eq!(t.path, Some("/tmp".to_string()));
    assert_eq!(t.bg, Some(Color((1, 2, 3))));
    assert_eq!(
        t.run(),
        "urxvt --background-expr 'keep { solid \"#123\" }'  -e sh -c 'cd /tmp; zsh'"
    );
    assert_eq!(Urxvt::new(None).path("a b").run(), "urxvt  -e sh -c 'cd a b; /bin/sh'");
    assert_eq!(
        Urxvt::new(None).bg(Color((10, 20, 30))).run(),
        "urxvt --background-expr 'keep { solid \"#102030\" }'  -e sh -c ' /bin/sh'"
    );
}

#[test]
fn context_run_asks_for_the_process_first() {
    assert_eq!(FOCUSED_PROCESS_ID, "xdotool getwindowfocus getwindowpid");
    assert_eq!(FOCUSED_WINDOW_NAME, "xdotool getwindowfocus getwindowname");
    assert_eq!(
        context_run("urxvt", Awaited::Nothing, None),
        ContextStep::Ask { command: FOCUSED_PROCESS_ID.to_string(), then: Awaited::ProcessId }
    );
    assert_eq!(
        context_run("urxvt", Awaited::Nothing, Some("ignored".to_string())),
        ContextStep::Ask { command: FOCUSED_PROCESS_ID.to_string(), then: Awaited::ProcessId }
    );
}

#[test]
fn context_run_asks_for_the_name_of_the_process() {
    assert_eq!(
        context_run("urxvt", Awaited::ProcessId, Some("4711".to_string())),
        ContextStep::Ask { command: "ps -p 4711 -o comm=".to_string(), then: Awaited::ProcessName }
    );
    assert_eq!(
        context_run("urxvt", Awaited::ProcessId, Some("4711\n".to_string())),
        ContextStep::Ask {
            command: "ps -p 4711\n -o comm=".to_string(),
            then: Awaited::ProcessName
        }
    );
}

#[test]
fn context_run_compares_the_name_of_the_process() {
    assert_eq!(
        context_run("urxvt", Awaited::ProcessName, Some("urxvt".to_string())),
        ContextStep::Ask { command: FOCUSED_WINDOW_NAME.to_string(), then: Awaited::WindowName }
    );
    assert_eq!(
        context_run("urxvt", Awaited::ProcessName, Some("urxvt\n".to_string())),
        ContextStep::Otherwise
    );
    assert_eq!(
        context_run("urxvt", Awaited::ProcessName, Some("code".to_string())),
        ContextStep::Otherwise
    );
}

#[test]
fn context_run_hands_the_name_of_the_window_on() {
    assert_eq!(
        context_run("urxvt", Awaited::WindowName, Some("~/src\n".to_string())),
        ContextStep::OnFocus("~/src\n".to_string())
    );
}

#[test]
fn context_run_stops_where_the_shell_gave_no_answer() {
    for awaited in [Awaited::ProcessId, Awaited::ProcessName, Awaited::WindowName] {
        assert_eq!(context_run("urxvt", awaited, None), ContextStep::Done);
    }
}
