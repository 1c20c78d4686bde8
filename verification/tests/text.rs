use codex_gateway::text::{
    after_first, concat_text, contains, contains_lowered, decimal_text, eq_ignore_ascii_case, join,
    nonblank_of, split_lines, starts_with, str_eq, trim, trim_start_matches,
};

const SAMPLES: [&str; 14] = [
    "",
    " ",
    "a",
    " a b ",
    "\u{3000}x\u{a0}\n",
    "data: data:x",
    "data:data:x",
    "Codex",
    "gpt-5.3-CODEX",
    "\u{fc}ber",
    "\u{dc}ber",
    "a?b?c",
    "\u{85}\u{2028}",
    "\u{200b}zero\u{200b}",
];

#[test]
fn text_functions_agree_with_the_standard_library() {
    for s in SAMPLES {
        assert_eq!(trim(s), s.trim());
        assert_eq!(trim(trim(s)), trim(s));
        assert_eq!(after_first(s, '?'), s.split_once('?').map(|(_, rest)| rest));
        assert_eq!(
            nonblank_of(Some(s)),
            Some(s.trim()).filter(|kept| !kept.is_empty())
        );
        for t in SAMPLES {
            assert_eq!(str_eq(s, t), s == t);
            assert_eq!(starts_with(s, t), s.starts_with(t));
            assert_eq!(contains(s, t), s.contains(t));
            assert_eq!(contains_lowered(s, t), s.to_ascii_lowercase().contains(t));
            assert_eq!(eq_ignore_ascii_case(s, t), s.eq_ignore_ascii_case(t));
            assert_eq!(concat_text(s, t), format!("{s}{t}"));
            if !t.is_empty() {
                assert_eq!(trim_start_matches(s, t), s.trim_start_matches(t));
            }
        }
    }
    assert_eq!(nonblank_of(None), None);
    for n in [0, 7, 10, 99, 1234567890, u64::MAX] {
        assert_eq!(decimal_text(n), n.to_string());
    }
}

#[test]
fn lines_are_the_pieces_between_newlines() {
    assert_eq!(split_lines(""), vec![""]);
    assert_eq!(split_lines("a\n\nb"), vec!["a", "", "b"]);
    assert_eq!(split_lines("a\r\n"), vec!["a\r", ""]);
    for text in ["", "x", "x\n", "x\r\ny\r\n", "\n\n", "data: 1\r\n\r\ndata: 2"] {
        let here: Vec<String> = split_lines(text)
            .iter()
            .map(|line| line.trim().to_string())
            .filter(|line| !line.is_empty())
            .collect();
        let there: Vec<String> = text
            .lines()
            .map(|line| line.trim().to_string())
            .filter(|line| !line.is_empty())
            .collect();
        assert_eq!(here, there);
    }
}

#[test]
fn texts_are_joined() {
    assert_eq!(join(&Vec::new(), ", "), "");
    assert_eq!(join(&vec!["a".to_string()], ", "), "a");
    assert_eq!(
        join(&vec!["a".to_string(), String::new(), "b".to_string()], "\n\n"),
        "a\n\n\n\nb"
    );
}
