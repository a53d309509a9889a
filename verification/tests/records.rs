use desktop_lister::record::{format_line, OutputRecord};

fn record(path: &str, name: &str, comment: &str, command: &str, terminal: bool) -> OutputRecord {
    OutputRecord {
        path: String::from(path),
        name: String::from(name),
        comment: String::from(comment),
        command: String::from(command),
        terminal,
    }
}

#[test]
fn line_has_five_tab_separated_fields() {
    let r = record("/usr/share/applications/foo.desktop", "Foo", "Bar", "foo --flag", false);
    assert_eq!(
        r.to_line(),
        "/usr/share/applications/foo.desktop\tFoo\tBar\tfoo --flag\tfalse"
    );
}

#[test]
fn terminal_flag_is_written_as_true_or_false() {
    assert_eq!(record("p", "n", "c", "x", true).to_line(), "p\tn\tc\tx\ttrue");
    assert_eq!(record("p", "n", "c", "x", false).to_line(), "p\tn\tc\tx\tfalse");
}

#[test]
fn empty_comment_leaves_an_empty_field() {
    assert_eq!(record("p", "n", "", "x", false).to_line(), "p\tn\t\tx\tfalse");
}

#[test]
fn all_fields_empty_leaves_only_tabs_and_the_flag() {
    assert_eq!(record("", "", "", "", false).to_line(), "\t\t\t\tfalse");
}

#[test]
fn tabs_and_newlines_in_fields_are_not_escaped() {
    let r = record("p", "a\tb", "c\nd", "x\\ty", true);
    assert_eq!(r.to_line(), "p\ta\tb\tc\nd\tx\\ty\ttrue");
}

#[test]
fn non_ascii_fields_are_kept() {
    let r = record("/apps/é.desktop", "Éditeur", "naïve ☃", "editeur %f", false);
    assert_eq!(r.to_line(), "/apps/é.desktop\tÉditeur\tnaïve ☃\tediteur %f\tfalse");
}

#[test]
fn format_line_agrees_with_to_line() {
    let r = record("/a/b.desktop", "B", "does b", "b --run", true);
    assert_eq!(
        format_line(&r.path, &r.name, &r.comment, &r.command, r.terminal),
        r.to_line()
    );
    assert_eq!(format_line("p", "n", "", "x", true), "p\tn\t\tx\ttrue");
}
