use framegen::config_text::find_char;
use framegen::config_text::is_blank_char;
use framegen::config_text::number;
use framegen::config_text::parse_entries;
use framegen::config_text::parse_line;
use framegen::config_text::parse_usize;
use framegen::config_text::text;
use framegen::config_text::trim;
use framegen::config_text::value_of;
use framegen::config_text::Entry;
use framegen::config_text::Key;
use framegen::config_text::TextError;

fn entry(key: &str, value: &str) -> Entry {
    Entry { key: key.to_string(), value: value.to_string() }
}

#[test]
fn blank_characters_are_the_white_space_of_std() {
    for code in 0..=0x10FFFFu32 {
        if let Some(c) = char::from_u32(code) {
            assert_eq!(is_blank_char(c), c.is_whitespace(), "U+{:04X}", code);
        }
    }
}

#[test]
fn trim_cuts_both_ends_only() {
    assert_eq!(trim("  a b \t"), "a b");
    assert_eq!(trim("a"), "a");
    assert_eq!(trim(""), "");
    assert_eq!(trim(" \r\n\t "), "");
    assert_eq!(trim("\u{a0}x\u{3000}"), "x");
    assert_eq!(trim("  é ü  "), "é ü");
    for s in ["", " ", "x", " x", "x ", " x y ", "\t\tkey\r", "\u{2003}wide\u{2003}", "=", " = "] {
        assert_eq!(trim(s), s.trim());
    }
}

#[test]
fn find_char_gives_first_position_or_length() {
    assert_eq!(find_char("a=b=c", '='), 1);
    assert_eq!(find_char("=", '='), 0);
    assert_eq!(find_char("abc", '='), 3);
    assert_eq!(find_char("", '='), 0);
    assert_eq!(find_char("éé=x", '='), 2);
}

#[test]
fn numbers_parse_as_in_std() {
    assert_eq!(parse_usize("0"), Some(0));
    assert_eq!(parse_usize("720"), Some(720));
    assert_eq!(parse_usize("007"), Some(7));
    assert_eq!(parse_usize("+5"), Some(5));
    assert_eq!(parse_usize(""), None);
    assert_eq!(parse_usize("+"), None);
    assert_eq!(parse_usize("-5"), None);
    assert_eq!(parse_usize("++5"), None);
    assert_eq!(parse_usize("5+"), None);
    assert_eq!(parse_usize("1 "), None);
    assert_eq!(parse_usize("1.0"), None);
    assert_eq!(parse_usize("12a"), None);
    assert_eq!(parse_usize(&usize::MAX.to_string()), Some(usize::MAX));
    let inputs = [
        "", "+", "0", "1", "+0", "-0", "10", "480", "0000000000000000000000000000001",
        "18446744073709551615", "18446744073709551616", "18446744073709551620",
        "99999999999999999999999999", "4294967295", "4294967296", "1_000", " 1", "１",
        "٣", "0x10", "1e3", "+18446744073709551615", "184467440737095516150",
    ];
    for s in inputs {
        assert_eq!(parse_usize(s), s.parse::<usize>().ok(), "{:?}", s);
    }
}

#[test]
fn line_is_cut_at_the_first_separator() {
    assert_eq!(parse_line("width=720"), Some(entry("width", "720")));
    assert_eq!(parse_line("  output =  a=b.mp4  "), Some(entry("output", "a=b.mp4")));
    assert_eq!(parse_line("="), Some(entry("", "")));
    assert_eq!(parse_line("key="), Some(entry("key", "")));
    assert_eq!(parse_line("no separator"), None);
    assert_eq!(parse_line("   "), None);
}

#[test]
fn entries_skip_comments_and_empty_lines() {
    let cfg = "# size\nwidth = 4\nheight=4\n\n#frames=9\nframes = 4\r\ncore_count=2\nshader = plasma";
    let entries = parse_entries(cfg).unwrap();
    assert_eq!(
        entries,
        vec![
            entry("width", "4"),
            entry("height", "4"),
            entry("frames", "4"),
            entry("core_count", "2"),
            entry("shader", "plasma"),
        ]
    );
}

#[test]
fn entries_of_empty_texts() {
    assert_eq!(parse_entries(""), Ok(vec![]));
    assert_eq!(parse_entries("\n\n\n"), Ok(vec![]));
    assert_eq!(parse_entries("# only a comment"), Ok(vec![]));
    assert_eq!(parse_entries("\r\n"), Ok(vec![]));
}

#[test]
fn line_without_separator_is_an_error() {
    assert_eq!(parse_entries("width 4"), Err(TextError::MissingSeparator));
    assert_eq!(parse_entries("width=4\nheight\nframes=2"), Err(TextError::MissingSeparator));
    assert_eq!(parse_entries("width=4\n   \n"), Err(TextError::MissingSeparator));
    assert_eq!(parse_entries(" # not at the start"), Err(TextError::MissingSeparator));
    assert_eq!(parse_entries("a=b\n\r"), Err(TextError::MissingSeparator));
}

fn entries_by_std(cfg: &str) -> Option<Vec<Entry>> {
    let mut out = Vec::new();
    for line in cfg.lines() {
        if line.starts_with('#') || line.is_empty() {
            continue;
        }
        let (k, v) = line.split_once('=')?;
        out.push(entry(k.trim(), v.trim()));
    }
    Some(out)
}

#[test]
fn entries_agree_with_line_splitting_of_std() {
    let texts = [
        "",
        "a=b",
        "a=b\n",
        "a=b\r\n",
        "a=b\r",
        "a=b\n\n",
        "\na=b",
        "a = 1\nb = 2\nc = 3",
        "a=1\r\nb=2\r\n",
        "#x\n#y\n",
        "a=\n=b\n=\n",
        "a=b=c\n",
        "\r\na=b",
        "a=b\n#",
        "k = v \t\n  k2\t=\tv2  ",
        "é = ü\n",
        "x\n",
        "a=b\nx",
        "\r",
        "a=1\n\r\nb=2",
    ];
    for cfg in texts {
        assert_eq!(parse_entries(cfg).ok(), entries_by_std(cfg), "{:?}", cfg);
    }
}

#[test]
fn the_last_entry_of_a_key_counts() {
    let entries = parse_entries("width=1\nheight=2\nwidth=3\n").unwrap();
    assert_eq!(value_of(&entries, "width"), Some("3"));
    assert_eq!(value_of(&entries, "height"), Some("2"));
    assert_eq!(value_of(&entries, "frames"), None);
    assert_eq!(value_of(&entries, "Width"), None);
    assert_eq!(number(&entries, Key::Width), Ok(3));
}

#[test]
fn numbers_and_texts_by_key() {
    let cfg = "width=720\nheight=abc\nframe_rate=30\nframes=60\ncore_count=8\nspeed=1.5\n\
               frame_dir=./frames\noutput=render.mp4\nshader=cyberspace\n";
    let entries = parse_entries(cfg).unwrap();
    assert_eq!(number(&entries, Key::Width), Ok(720));
    assert_eq!(number(&entries, Key::Height), Err(TextError::InvalidNumber(Key::Height)));
    assert_eq!(number(&entries, Key::FrameRate), Ok(30));
    assert_eq!(number(&entries, Key::Frames), Ok(60));
    assert_eq!(number(&entries, Key::CoreCount), Ok(8));
    assert_eq!(number(&entries, Key::Speed), Err(TextError::InvalidNumber(Key::Speed)));
    assert_eq!(text(&entries, Key::Speed), Ok("1.5"));
    assert_eq!(text(&entries, Key::FrameDir), Ok("./frames"));
    assert_eq!(text(&entries, Key::Output), Ok("render.mp4"));
    assert_eq!(text(&entries, Key::Shader), Ok("cyberspace"));
}

#[test]
fn missing_keys_are_named() {
    let entries = parse_entries("width=1\n").unwrap();
    for key in [
        Key::Height,
        Key::FrameRate,
        Key::Frames,
        Key::CoreCount,
        Key::Speed,
        Key::FrameDir,
        Key::Output,
        Key::Shader,
    ] {
        assert_eq!(number(&entries, key), Err(TextError::MissingKey(key)));
        assert_eq!(text(&entries, key), Err(TextError::MissingKey(key)));
    }
}

#[test]
fn key_names() {
    assert_eq!(Key::Width.name(), "width");
    assert_eq!(Key::Height.name(), "height");
    assert_eq!(Key::FrameRate.name(), "frame_rate");
    assert_eq!(Key::Frames.name(), "frames");
    assert_eq!(Key::CoreCount.name(), "core_count");
    assert_eq!(Key::Speed.name(), "speed");
    assert_eq!(Key::FrameDir.name(), "frame_dir");
    assert_eq!(Key::Output.name(), "output");
    assert_eq!(Key::Shader.name(), "shader");
}
