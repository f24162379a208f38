use gtfo_codefilter::text::{line_ranges, trimmed_range, white_space};

#[test]
fn white_space_agrees_with_char_is_whitespace() {
    for code in 0u32..=0x10FFFF {
        if let Some(c) = char::from_u32(code) {
            assert_eq!(white_space(c), c.is_whitespace(), "code point {:x}", code);
        }
    }
}

const SAMPLES: &[&str] = &[
    "",
    "\n",
    "\n\n",
    "\r\n",
    "\r",
    "a",
    "a\n",
    "a\r\n",
    "a\r",
    "a\rb\n",
    "foo\nbar\n\r\nbaz\r",
    "x\r\r\ny\n\nz",
    "  ab \t\r\n\u{3000}cd\u{a0}\u{2029}\n \u{feff} e \u{85}",
    "\u{feff}able\r\nacid",
];

#[test]
fn line_ranges_agree_with_str_lines() {
    for sample in SAMPLES {
        let chars: Vec<char> = sample.chars().collect();
        let ours: Vec<String> = line_ranges(&chars)
            .iter()
            .map(|&(a, b)| chars[a..b].iter().collect())
            .collect();
        let std_lines: Vec<String> = sample.lines().map(|l| l.to_string()).collect();
        assert_eq!(ours, std_lines, "sample {:?}", sample);
    }
}

#[test]
fn trimmed_range_agrees_with_str_trim() {
    for sample in SAMPLES {
        let chars: Vec<char> = sample.chars().collect();
        let (a, b) = trimmed_range(&chars, 0, chars.len());
        let ours: String = chars[a..b].iter().collect();
        assert_eq!(ours, sample.trim(), "sample {:?}", sample);
    }
}
