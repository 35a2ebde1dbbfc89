use kagi_mcp::format::ellipsis::collapse_snippet_ellipses;

#[test]
fn ellipsis_when_collapse_ellipses_with_multiple_runs_then_should_collapse_to_one() {
    assert_eq!(
        collapse_snippet_ellipses("foo ... ... ... bar"),
        "foo ... bar"
    );
}

#[test]
fn ellipsis_when_collapse_ellipses_with_single_run_then_should_preserve() {
    assert_eq!(collapse_snippet_ellipses("foo ... bar"), "foo ... bar");
}

#[test]
fn when_collapse_ellipses_with_leading_then_should_preserve() {
    assert_eq!(collapse_snippet_ellipses("... foo"), "... foo");
}

#[test]
fn ellipsis_when_collapse_ellipses_with_trailing_then_should_preserve() {
    assert_eq!(collapse_snippet_ellipses("foo ..."), "foo ...");
}

#[test]
fn ellipsis_when_collapse_ellipses_with_directly_concatenated_then_should_collapse_to_one() {
    assert_eq!(collapse_snippet_ellipses("foo......bar"), "foo ... bar");
}

#[test]
fn ellipsis_when_collapse_ellipses_with_mixed_separators_then_should_collapse_to_one() {
    assert_eq!(
        collapse_snippet_ellipses("foo ... ...... ... bar"),
        "foo ... bar"
    );
}

#[test]
fn when_snippet_is_collapsed_twice_then_nothing_more_should_change() {
    for s in ["a.... b ... ... c..", "..x...y.", " ...  ... ", "end...", "1.5 .. 2"] {
        let once = collapse_snippet_ellipses(s);
        assert_eq!(collapse_snippet_ellipses(&once), once);
    }
    assert_eq!(collapse_snippet_ellipses("..x...y."), "..x ... y.");
}

#[test]
fn when_snippet_has_no_dots_then_only_whitespace_should_collapse() {
    assert_eq!(collapse_snippet_ellipses("  plain \t text\n here "), "plain text here");
}

#[test]
fn when_dot_runs_are_shorter_than_three_then_every_dot_should_stay() {
    assert_eq!(collapse_snippet_ellipses("  a.b..c \t d. .. "), "a.b..c d. ..");
    assert_eq!(collapse_snippet_ellipses("v1.2..3"), "v1.2..3");
}
