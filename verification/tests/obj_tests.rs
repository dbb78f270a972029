use aim_trainer::obj::{load_from_obj_str, parse_corner, split_words, ObjError, ObjFace, Span};

fn sp(start: usize, end: usize) -> Span {
    Span { start, end }
}

fn word<'a>(text: &'a str, w: Span) -> &'a str {
    &text[w.start..w.end]
}

#[test]
fn split_words_on_blanks_and_tabs() {
    let text = "  v 1.0\t-2.5   3e2 \r";
    let found = split_words(text.as_bytes(), 0, text.len());
    let texts: Vec<&str> = found.iter().map(|w| word(text, *w)).collect();
    assert_eq!(texts, vec!["v", "1.0", "-2.5", "3e2"]);
    assert_eq!(found[0], sp(2, 3));
    assert!(split_words(b"   \t ", 0, 5).is_empty());
    assert!(split_words(b"", 0, 0).is_empty());
    assert_eq!(split_words(b"abc", 0, 3), vec![sp(0, 3)]);
    assert_eq!(split_words(b"ab cd ef", 3, 8), vec![sp(3, 5), sp(6, 8)]);
    assert_eq!(split_words(b"ab cd ef", 1, 4), vec![sp(1, 2), sp(3, 4)]);
}

#[test]
fn parse_corner_reads_the_digits_before_the_slash() {
    let corner = |t: &str| parse_corner(t.as_bytes(), sp(0, t.len()));
    assert_eq!(corner("12"), Some(12));
    assert_eq!(corner("12/5/7"), Some(12));
    assert_eq!(corner("3//9"), Some(3));
    assert_eq!(corner("+4"), Some(4));
    assert_eq!(corner("007"), Some(7));
    assert_eq!(corner("0"), Some(0));
    assert_eq!(corner(""), None);
    assert_eq!(corner("/3"), None);
    assert_eq!(corner("+"), None);
    assert_eq!(corner("+/1"), None);
    assert_eq!(corner("-1"), None);
    assert_eq!(corner("1a"), None);
    assert_eq!(corner("1.5"), None);
    assert_eq!(corner("++1"), None);
    assert_eq!(corner(&usize::MAX.to_string()), Some(usize::MAX));
    assert_eq!(corner(&format!("{}0", usize::MAX)), None);
    assert_eq!(corner("99999999999999999999999999"), None);
    let same = |t: &str| assert_eq!(corner(t), t.parse::<usize>().ok());
    for t in ["1", "+1", "0012", "18446744073709551615", "18446744073709551616", "x", "", "+", "1 "] {
        same(t);
    }
}

#[test]
fn load_reads_corners_and_triangles() {
    let text = "# a square\nv 0 0 0\nv 1 0 0\nv 1 1 0\nv 0 1.5 -2e1\n\nvn 0 0 1\nf 1 2 3\nf 1/1/1 3/3/1 4/4/1\n";
    let held = load_from_obj_str(text.as_bytes()).unwrap();
    assert_eq!(held.vertices.len(), 4);
    assert_eq!(word(text, held.vertices[3].x), "0");
    assert_eq!(word(text, held.vertices[3].y), "1.5");
    assert_eq!(word(text, held.vertices[3].z), "-2e1");
    assert_eq!(held.faces, vec![ObjFace { a: 0, b: 1, c: 2 }, ObjFace { a: 0, b: 2, c: 3 }]);
}

#[test]
fn load_takes_any_end_of_line_and_extra_words() {
    let text = "v 1 2 3 4\r\nv 4 5 6\r\n v  7\t8 9\nf 3 2 1 extra\nf 1 1 1";
    let held = load_from_obj_str(text.as_bytes()).unwrap();
    assert_eq!(held.vertices.len(), 3);
    assert_eq!(word(text, held.vertices[0].z), "3");
    assert_eq!(word(text, held.vertices[2].x), "7");
    assert_eq!(held.faces, vec![ObjFace { a: 2, b: 1, c: 0 }, ObjFace { a: 0, b: 0, c: 0 }]);
}

#[test]
fn load_of_nothing_is_empty() {
    let held = load_from_obj_str(b"").unwrap();
    assert!(held.vertices.is_empty() && held.faces.is_empty());
    let held = load_from_obj_str(b"\n\n  \n# nothing\nvt 1 2\nfoo\nvv 1 2 3\n").unwrap();
    assert!(held.vertices.is_empty() && held.faces.is_empty());
}

#[test]
fn load_refuses_short_lines() {
    assert_eq!(load_from_obj_str(b"v 1 2").unwrap_err(), ObjError::MissingField);
    assert_eq!(load_from_obj_str(b"v").unwrap_err(), ObjError::MissingField);
    assert_eq!(load_from_obj_str(b"v 1 2 3\nf 1 1").unwrap_err(), ObjError::MissingField);
    assert_eq!(load_from_obj_str(b"f").unwrap_err(), ObjError::MissingField);
}

#[test]
fn load_refuses_words_that_are_no_numbers() {
    assert_eq!(load_from_obj_str(b"v 1 2 3\nf 1 x 1").unwrap_err(), ObjError::BadIndex);
    assert_eq!(load_from_obj_str(b"v 1 2 3\nf 1 1 -1").unwrap_err(), ObjError::BadIndex);
    assert_eq!(load_from_obj_str(b"v 1 2 3\nf /1 1 1").unwrap_err(), ObjError::BadIndex);
    assert_eq!(load_from_obj_str(b"f 9 x 1").unwrap_err(), ObjError::BadIndex);
}

#[test]
fn load_refuses_corners_that_are_not_there() {
    assert_eq!(load_from_obj_str(b"v 1 2 3\nf 1 2 1").unwrap_err(), ObjError::NoSuchVertex);
    assert_eq!(load_from_obj_str(b"v 1 2 3\nf 0 1 1").unwrap_err(), ObjError::NoSuchVertex);
    assert_eq!(load_from_obj_str(b"f 1 1 1\nv 1 2 3").unwrap_err(), ObjError::NoSuchVertex);
    // The first line that cannot be read decides.
    assert_eq!(load_from_obj_str(b"f 1 1 1\nv 1").unwrap_err(), ObjError::NoSuchVertex);
    assert_eq!(load_from_obj_str(b"v 1\nf 1 1 1").unwrap_err(), ObjError::MissingField);
}
