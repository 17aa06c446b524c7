use arctis_chatmix::text::{
    all_digits, begins, chars_of, cut_at_last, decimal_of, ends, escape_spaces, hex_of, join,
    lines_of, pad, parse_u32, position, same_text, space, string_of, trimmed,
};

const TEXTS: [&str; 14] = [
    "",
    " ",
    "a",
    "\n",
    "a\n",
    "a\r\nb",
    "\r\n\r\n",
    "a\n\nb\n",
    "a\r",
    " \ta b\u{2003}\u{85}",
    "\u{feff} x \u{200b}",
    "=a=b",
    "x\ty\tz",
    "\u{1f600} \u{e4}",
];

#[test]
fn white_space_is_that_of_char() {
    for c in '\0'..=char::MAX {
        assert_eq!(space(c), c.is_whitespace(), "{c:?}");
    }
}

#[test]
fn texts_are_cut_as_std_cuts_them() {
    for text in TEXTS {
        let chars = chars_of(text);
        assert_eq!(string_of(&chars), text);
        let lines: Vec<String> = lines_of(&chars).into_iter().map(string_of).collect();
        assert_eq!(lines, text.lines().collect::<Vec<&str>>(), "{text:?}");
        assert_eq!(string_of(trimmed(&chars)), text.trim(), "{text:?}");
        assert_eq!(
            position(&chars, '\t'),
            text.chars().position(|c| c == '\t').unwrap_or(chars.len())
        );
        for part in ["", "a", "\n", "a=b", "z", " "] {
            assert_eq!(begins(&chars, part), text.starts_with(part));
            assert_eq!(ends(&chars, part), text.ends_with(part));
            assert_eq!(same_text(text, part), text == part);
            assert_eq!(
                cut_at_last(&chars, part).map(string_of).as_deref(),
                text.rsplit_once(part).map(|(head, _)| head),
                "{text:?} {part:?}"
            );
        }
        assert_eq!(escape_spaces(text), text.replace(' ', "\\ "));
        for width in [0, 1, 3, 14] {
            assert_eq!(pad(text, width), format!("{text:<width$}"));
        }
    }
}

#[test]
fn numbers_are_written_as_std_writes_them() {
    for n in [0u32, 1, 9, 10, 15, 16, 99, 255, 256, 4096, 65535, 536870917, u32::MAX] {
        assert_eq!(decimal_of(n), n.to_string());
        assert_eq!(hex_of(n, 8, true), format!("{n:08X}"));
        assert_eq!(hex_of(n, 8, false), format!("{n:08x}"));
    }
    assert_eq!(hex_of(0x1038, 4, false), "1038");
    assert_eq!(hex_of(7, 2, false), "07");
}

#[test]
fn numbers_are_read_as_std_reads_them() {
    for text in [
        "", "0", "00", "7", "+7", "++7", "-7", "+", "12a", " 1", "4294967295", "4294967296",
        "00000000000000000000001", "99999999999999999999", "\u{661}",
    ] {
        assert_eq!(parse_u32(&chars_of(text)), text.parse().ok(), "{text:?}");
        assert_eq!(all_digits(&chars_of(text)), text.bytes().all(|b| b.is_ascii_digit()));
    }
}

#[test]
fn parts_are_joined() {
    for parts in [vec![], vec!["a"], vec!["a", "", "b c"]] {
        let owned: Vec<String> = parts.iter().map(|p| p.to_string()).collect();
        assert_eq!(join(&owned, " "), parts.join(" "));
        assert_eq!(join(&owned, ", "), parts.join(", "));
    }
}
