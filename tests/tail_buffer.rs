use wgmon::tail::{vec_to_text, LineBuffer, TAIL_CAPACITY};

#[test]
fn push_past_capacity_keeps_last_hundred_in_order() {
    let mut buf = LineBuffer::new();
    for i in 0..150 {
        buf.push(format!("line {}", i));
    }
    assert_eq!(buf.len(), TAIL_CAPACITY);
    let held = buf.lines();
    for (j, line) in held.iter().enumerate() {
        assert_eq!(line, &format!("line {}", j + 50));
    }
}

#[test]
fn push_below_capacity_keeps_everything() {
    let mut buf = LineBuffer::new();
    buf.push("a".to_string());
    buf.push("b".to_string());
    assert_eq!(buf.lines(), &vec!["a".to_string(), "b".to_string()]);
    assert_eq!(buf.text(), "a\nb");
}

#[test]
fn exactly_capacity_drops_nothing() {
    let mut buf = LineBuffer::new();
    for i in 0..100 {
        buf.push(i.to_string());
    }
    assert_eq!(buf.len(), 100);
    assert_eq!(buf.lines()[0], "0");
    buf.push("100".to_string());
    assert_eq!(buf.len(), 100);
    assert_eq!(buf.lines()[0], "1");
    assert_eq!(buf.lines()[99], "100");
}

#[test]
fn text_of_empty_buffer_is_empty() {
    assert_eq!(LineBuffer::new().text(), "");
    assert_eq!(vec_to_text(&Vec::new()), "");
}

#[test]
fn vec_to_text_joins_with_newlines() {
    let v = vec!["x".to_string(), "".to_string(), "y z".to_string()];
    assert_eq!(vec_to_text(&v), "x\n\ny z");
    assert_eq!(vec_to_text(&vec!["only".to_string()]), "only");
}

#[test]
fn joined_text_splits_back_into_lines() {
    let v: Vec<String> = vec!["a".to_string(), "b c".to_string(), "".to_string(), "d".to_string()];
    let t = vec_to_text(&v);
    let back: Vec<String> = t.split('\n').map(|s| s.to_string()).collect();
    assert_eq!(back, v);
}
