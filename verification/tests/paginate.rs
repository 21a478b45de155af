use discord_playerlist::paginate::{join_lines, paginate, split_halves, split_lines};
use discord_playerlist::render::RenderedContent;

fn content(title: &str, teams: &[&str]) -> RenderedContent {
    RenderedContent {
        title: title.to_string(),
        teams: teams.iter().map(|t| t.to_string()).collect(),
    }
}

#[test]
fn lines_are_cut_at_line_breaks() {
    assert_eq!(split_lines("a\nb\nc"), vec!["a", "b", "c"]);
    assert_eq!(split_lines("a\nb\n"), vec!["a", "b", ""]);
    assert_eq!(split_lines(""), vec![""]);
    assert_eq!(split_lines("\n"), vec!["", ""]);
    assert_eq!(split_lines("no break"), vec!["no break"]);
    assert_eq!(split_lines("\n\nx"), vec!["", "", "x"]);
}

#[test]
fn lines_agree_with_the_standard_split() {
    for text in ["", "a", "a\n", "\na", "a\n\nb", "one\ntwo\nthree\n", "ü\nß\n"] {
        let expected: Vec<String> = text.split('\n').map(|l| l.to_string()).collect();
        assert_eq!(split_lines(text), expected);
    }
}

#[test]
fn lines_are_joined_with_line_breaks() {
    let lines: Vec<String> = vec!["a".into(), "b".into(), "c".into()];
    assert_eq!(join_lines(&lines, 0, 3), "a\nb\nc");
    assert_eq!(join_lines(&lines, 0, 1), "a");
    assert_eq!(join_lines(&lines, 1, 3), "b\nc");
    assert_eq!(join_lines(&lines, 2, 2), "");
    assert_eq!(join_lines(&lines, 0, 0), "");
}

#[test]
fn halves_split_by_line_count() {
    assert_eq!(split_halves("a\nb\nc\nd"), ("a\nb".to_string(), "c\nd".to_string()));
    assert_eq!(split_halves("a\nb\nc"), ("a".to_string(), "b\nc".to_string()));
    assert_eq!(split_halves("a\nb"), ("a".to_string(), "b".to_string()));
}

#[test]
fn odd_line_goes_to_the_second_half() {
    let (first, second) = split_halves("1\n2\n3\n4\n5");
    assert_eq!(first, "1\n2");
    assert_eq!(second, "3\n4\n5");
}

#[test]
fn body_without_line_break_has_an_empty_first_half() {
    assert_eq!(split_halves("only"), (String::new(), "only".to_string()));
    assert_eq!(split_halves(""), (String::new(), String::new()));
}

#[test]
fn body_ending_in_a_line_break_keeps_its_empty_last_line() {
    assert_eq!(
        split_halves("head\nlabels\nrow\n"),
        ("head\nlabels".to_string(), "row\n".to_string())
    );
}

#[test]
fn halves_rejoin_to_the_body() {
    for body in ["a\nb", "a\nb\nc", "h\nl\nr1\nr2\nr3\n", "\n", "\n\n\n", "x\n\ny"] {
        let (first, second) = split_halves(body);
        assert_eq!(format!("{}\n{}", first, second), body);
        let mut lines = split_lines(&first);
        lines.extend(split_lines(&second));
        assert_eq!(lines, split_lines(body));
    }
}

#[test]
fn paginate_without_teams_yields_the_title_alone() {
    let chunks = paginate(&content("title", &[]));
    assert_eq!(chunks, vec!["title"]);
}

#[test]
fn paginate_yields_one_plus_twice_the_teams() {
    for teams in 0..6usize {
        let bodies: Vec<String> = (0..teams).map(|t| format!("team {}\nlabels\nrow\n", t)).collect();
        let refs: Vec<&str> = bodies.iter().map(|b| b.as_str()).collect();
        let chunks = paginate(&content("title", &refs));
        assert_eq!(chunks.len(), 1 + 2 * teams);
    }
}

#[test]
fn paginate_interleaves_the_halves_in_team_order() {
    let chunks = paginate(&content("t\nwith\nlines", &["a\nb\nc\nd", "e\nf"]));
    assert_eq!(chunks, vec!["t\nwith\nlines", "a\nb", "c\nd", "e", "f"]);
}

#[test]
fn paginate_never_splits_the_title() {
    let chunks = paginate(&content("one\ntwo\nthree\nfour", &["x"]));
    assert_eq!(chunks[0], "one\ntwo\nthree\nfour");
    assert_eq!(chunks[1], "");
    assert_eq!(chunks[2], "x");
}

#[test]
fn chunk_count_does_not_depend_on_the_length_of_a_body() {
    let long: String = (0..500).map(|i| format!("line {}\n", i)).collect();
    let chunks = paginate(&content("title", &[&long, "", "short"]));
    assert_eq!(chunks.len(), 7);
}
