use billiards::repl::{
    make_repl_state, parse_load_source, respond, split_words, LoadSource, Reply,
};

fn words(texts: &[&str]) -> Vec<String> {
    texts.iter().map(|text| text.to_string()).collect()
}

fn plotted(reply: &Reply) -> Option<&str> {
    match reply {
        Reply::Plot(source) => Some(source.as_str()),
        _ => None,
    }
}

fn loaded(reply: &Reply) -> Option<&str> {
    match reply {
        Reply::Loading(LoadSource::PointSet(name)) => Some(name.as_str()),
        _ => None,
    }
}

#[test]
fn split_words_cuts_at_whitespace() {
    assert_eq!(split_words("plot cerberus"), words(&["plot", "cerberus"]));
    assert_eq!(split_words("load a b\tc"), words(&["load", "a", "b", "c"]));
    assert_eq!(split_words("one"), words(&["one"]));
}

#[test]
fn split_words_keeps_empty_words() {
    assert_eq!(split_words(""), words(&[""]));
    assert_eq!(split_words(" "), words(&["", ""]));
    assert_eq!(split_words("a  b"), words(&["a", "", "b"]));
    assert_eq!(split_words(" a "), words(&["", "a", ""]));
    assert_eq!(split_words("\t\n"), words(&["", "", ""]));
}

#[test]
fn split_words_agrees_with_the_standard_split() {
    for line in [
        "plot cerberus[0]",
        "  load  x   y ",
        "",
        "\u{a0}wide\u{2003}spaces\u{3000}",
        "caf\u{e9} na\u{ef}ve \u{1f3b1}",
        "tab\tnewline\nreturn\rend",
    ] {
        let expected: Vec<String> = line
            .split(char::is_whitespace)
            .map(|word| word.to_string())
            .collect();
        assert_eq!(split_words(line), expected);
    }
}

#[test]
fn split_words_counts_one_more_than_the_whitespace() {
    for line in ["", "a", "a b", " a  b ", "\t\t\t"] {
        let white = line.chars().filter(|c| c.is_whitespace()).count();
        assert_eq!(split_words(line).len(), white + 1);
    }
}

#[test]
fn parse_load_source_names_a_point_set() {
    match parse_load_source("cerberus") {
        Ok(LoadSource::PointSet(name)) => assert_eq!(name, "cerberus"),
        _ => panic!("a point set was expected"),
    }
    match parse_load_source("") {
        Ok(LoadSource::PointSet(name)) => assert_eq!(name, ""),
        _ => panic!("a point set was expected"),
    }
}

#[test]
fn describe_names_the_kind_and_the_name() {
    assert_eq!(
        LoadSource::PointSet("cerberus".to_string()).describe(),
        "PointSet(cerberus)"
    );
    assert_eq!(
        LoadSource::PathSet("orbit".to_string()).describe(),
        "PathSet(orbit)"
    );
}

#[test]
fn plot_takes_the_first_source() {
    let replies = respond(&words(&["plot", "cerberus[0]", "more"]));
    assert_eq!(replies.len(), 1);
    assert_eq!(plotted(&replies[0]), Some("cerberus[0]"));
}

#[test]
fn plot_without_a_source_gets_the_usage() {
    let replies = respond(&words(&["plot"]));
    assert_eq!(replies.len(), 1);
    assert!(matches!(replies[0], Reply::PlotUsage));
}

#[test]
fn load_takes_every_source() {
    let replies = respond(&words(&["load", "a", "", "b"]));
    assert_eq!(replies.len(), 3);
    assert_eq!(loaded(&replies[0]), Some("a"));
    assert_eq!(loaded(&replies[1]), Some(""));
    assert_eq!(loaded(&replies[2]), Some("b"));
    assert_eq!(respond(&words(&["load"])).len(), 0);
}

#[test]
fn other_commands_get_no_reply() {
    assert_eq!(respond(&words(&["quit"])).len(), 0);
    assert_eq!(respond(&words(&[""])).len(), 0);
    assert_eq!(respond(&words(&["Plot", "x"])).len(), 0);
    assert_eq!(respond(&words(&["plots", "x"])).len(), 0);
    assert_eq!(respond(&words(&[])).len(), 0);
}

#[test]
fn handle_line_answers_the_line() {
    let mut state = make_repl_state();
    let replies = state.handle_line("plot cerberus");
    assert_eq!(replies.len(), 1);
    assert_eq!(plotted(&replies[0]), Some("cerberus"));

    let replies = state.handle_line("load a b");
    assert_eq!(replies.len(), 2);
    assert_eq!(loaded(&replies[0]), Some("a"));
    assert_eq!(loaded(&replies[1]), Some("b"));

    assert!(matches!(state.handle_line("plot")[0], Reply::PlotUsage));
    assert_eq!(state.handle_line("").len(), 0);
    assert_eq!(state.handle_line("hello there").len(), 0);
}

#[test]
fn handle_line_reads_the_command_from_the_first_word_only() {
    let mut state = make_repl_state();
    // a leading blank makes the first word empty
    assert_eq!(state.handle_line(" plot x").len(), 0);
    // two blanks make the source empty
    let replies = state.handle_line("plot  x");
    assert_eq!(plotted(&replies[0]), Some(""));
}

#[test]
fn handle_line_leaves_the_state_alone() {
    let mut state = make_repl_state();
    let _ = state.handle_line("load a b c");
    assert!(!state.cancelled);
    assert!(state.namespace.is_empty());
}

#[test]
fn new_state_is_empty_and_not_cancelled() {
    let state = make_repl_state();
    assert!(!state.cancelled);
    assert!(state.namespace.is_empty());
}

#[test]
fn cancel_sets_the_flag() {
    let mut state = make_repl_state();
    state.cancel();
    assert!(state.cancelled);
    assert!(state.namespace.is_empty());
    state.cancel();
    assert!(state.cancelled);
}
