use rodo::codec::{decode, decode_all, encode, encode_all, task_fields, task_from_fields};
use rodo::database::Database;
use rodo::task::{Status, Task};

fn task(id: u32, content: &str, status: Status) -> Task {
    Task { id, content: content.to_string(), status }
}

fn fields(id: &str, content: &str, status: &str) -> Vec<String> {
    vec![id.to_string(), content.to_string(), status.to_string()]
}

#[test]
fn a_plain_task_is_one_plain_line() {
    assert_eq!(encode(&task(0, "buy milk", Status::TODO)).unwrap(), b"0,buy milk,TODO\n".to_vec());
    assert_eq!(encode(&task(17, "", Status::DONE)).unwrap(), b"17,,DONE\n".to_vec());
    assert_eq!(
        encode(&task(4294967295, "x", Status::IN_PROGRESS)).unwrap(),
        b"4294967295,x,IN_PROGRESS\n".to_vec()
    );
    assert_eq!(encode(&task(3, "gone", Status::DELETED)).unwrap(), b"3,gone,DELETED\n".to_vec());
}

#[test]
fn a_content_with_a_comma_a_quote_or_a_line_break_is_quoted() {
    assert_eq!(encode(&task(1, "a,b", Status::TODO)).unwrap(), b"1,\"a,b\",TODO\n".to_vec());
    assert_eq!(
        encode(&task(2, "say \"hi\"", Status::TODO)).unwrap(),
        b"2,\"say \"\"hi\"\"\",TODO\n".to_vec()
    );
    assert_eq!(encode(&task(3, "a\nb", Status::TODO)).unwrap(), b"3,\"a\nb\",TODO\n".to_vec());
    assert_eq!(encode(&task(4, "a\rb", Status::TODO)).unwrap(), b"4,\"a\rb\",TODO\n".to_vec());
}

#[test]
fn a_task_is_its_three_fields() {
    assert_eq!(task_fields(&task(12, "walk dog", Status::DONE)), fields("12", "walk dog", "DONE"));
    assert_eq!(
        task_fields(&task(0, "", Status::ELSE("BLOCKED".to_string()))),
        fields("0", "", "BLOCKED")
    );
}

#[test]
fn three_fields_with_a_number_are_a_task() {
    assert_eq!(
        task_from_fields(&fields("12", "walk dog", "DONE")),
        Some(task(12, "walk dog", Status::DONE))
    );
    assert_eq!(task_from_fields(&fields("+7", "", "TODO")), Some(task(7, "", Status::TODO)));
    assert_eq!(
        task_from_fields(&fields("007", "x", "IN_PROGRESS")),
        Some(task(7, "x", Status::IN_PROGRESS))
    );
}

#[test]
fn other_rows_are_no_task() {
    assert_eq!(task_from_fields(&vec![]), None);
    assert_eq!(task_from_fields(&vec!["1".to_string(), "a".to_string()]), None);
    assert_eq!(
        task_from_fields(&vec![
            "1".to_string(),
            "a".to_string(),
            "TODO".to_string(),
            "more".to_string()
        ]),
        None
    );
    assert_eq!(task_from_fields(&fields("", "a", "TODO")), None);
    assert_eq!(task_from_fields(&fields("one", "a", "TODO")), None);
    assert_eq!(task_from_fields(&fields("-1", "a", "TODO")), None);
    assert_eq!(task_from_fields(&fields("4294967296", "a", "TODO")), None);
}

#[test]
fn an_unknown_status_name_is_kept() {
    assert_eq!(
        task_from_fields(&fields("1", "a", "BLOCKED")),
        Some(task(1, "a", Status::ELSE("BLOCKED".to_string())))
    );
    assert_eq!(
        task_from_fields(&fields("1", "a", "todo")),
        Some(task(1, "a", Status::ELSE("todo".to_string())))
    );
    assert_eq!(
        decode(b"5,later,ELSE\n"),
        Some(task(5, "later", Status::ELSE("ELSE".to_string())))
    );
    assert_eq!(decode(b"5,later,\n"), Some(task(5, "later", Status::ELSE(String::new()))));
}

#[test]
fn a_line_is_read_with_or_without_its_end() {
    let expected = task(0, "buy milk", Status::TODO);
    assert_eq!(decode(b"0,buy milk,TODO\n"), Some(task(0, "buy milk", Status::TODO)));
    assert_eq!(decode(b"0,buy milk,TODO"), Some(task(0, "buy milk", Status::TODO)));
    assert_eq!(decode(b"0,buy milk,TODO\r\n"), Some(task(0, "buy milk", Status::TODO)));
    assert_eq!(Database::parse_task_line("0,buy milk,TODO\n"), Some(expected));
    assert_eq!(
        Database::parse_task_line("3,\"a,b\",DONE"),
        Some(task(3, "a,b", Status::DONE))
    );
}

#[test]
fn only_the_first_record_of_a_line_is_read() {
    assert_eq!(decode(b"0,a,TODO\n1,b,DONE\n"), Some(task(0, "a", Status::TODO)));
}

#[test]
fn a_line_that_holds_no_task_gives_none() {
    assert_eq!(decode(b""), None);
    assert_eq!(decode(b"\n"), None);
    assert_eq!(decode(b"just words\n"), None);
    assert_eq!(decode(b"1,a\n"), None);
    assert_eq!(decode(b"1,a,TODO,more\n"), None);
    assert_eq!(decode(b"x,a,TODO\n"), None);
    assert_eq!(decode(b"1,\xff,TODO\n"), None);
    assert_eq!(Database::parse_task_line(""), None);
    assert_eq!(Database::parse_task_line("no task here"), None);
}

#[test]
fn a_task_that_is_written_is_read_back() {
    let contents = [
        "",
        "buy milk",
        "a,b",
        ",",
        "\"",
        "\"\"",
        "say \"hi\", then leave",
        "line one\nline two",
        "carriage\rreturn",
        "both\r\nends",
        " leading and trailing ",
        "\ttab",
        "caf\u{e9} \u{1f600}",
        "\u{feff}marked",
        "#not a comment",
        "a\\b",
        "'single'",
        "trailing quote\"",
        "\nfirst",
        "0,nested,TODO\n",
    ];
    let mut id: u32 = 0;
    for content in contents {
        for status in [
            Status::TODO,
            Status::IN_PROGRESS,
            Status::DONE,
            Status::DELETED,
            Status::ELSE("ELSE".to_string()),
            Status::ELSE("a,\"b\"\n".to_string()),
            Status::ELSE(String::new()),
        ] {
            let written = task(id, content, status);
            let line = encode(&written).unwrap();
            assert_eq!(decode(&line), Some(written));
            id = id.wrapping_mul(31).wrapping_add(4294967295 / 7);
        }
    }
}

#[test]
fn a_content_with_a_comma_is_read_back_as_it_was() {
    let mut db = Database::new();
    let args: Vec<String> =
        vec!["rodo".to_string(), "add".to_string(), "eggs, milk, and \"bread\"".to_string()];
    let added = rodo::run::add(&args, &mut db).unwrap();
    let reread = Database::load(&added.record);
    assert_eq!(reread.tasks.len(), 1);
    assert_eq!(reread.tasks[0].content, "eggs, milk, and \"bread\"");
    assert_eq!(reread.tasks[0], added.task);
}

#[test]
fn a_status_that_holds_a_known_name_is_read_as_that_state() {
    let odd = task(1, "a", Status::ELSE("TODO".to_string()));
    let line = encode(&odd).unwrap();
    assert_eq!(line, b"1,a,TODO\n".to_vec());
    assert_eq!(decode(&line), Some(task(1, "a", Status::TODO)));
}

#[test]
fn tasks_are_written_one_line_after_another() {
    let tasks = vec![
        task(0, "buy milk", Status::TODO),
        task(1, "walk, then run", Status::DELETED),
        task(2, "", Status::ELSE("LATER".to_string())),
    ];
    assert_eq!(
        encode_all(&tasks).unwrap(),
        b"0,buy milk,TODO\n1,\"walk, then run\",DELETED\n2,,LATER\n".to_vec()
    );
    assert_eq!(encode_all(&vec![]).unwrap(), Vec::<u8>::new());
}

#[test]
fn all_the_tasks_of_a_text_are_read_in_order() {
    let tasks = decode_all(b"0,buy milk,TODO\n1,\"walk, then run\",DELETED\n2,,LATER\n");
    assert_eq!(
        tasks,
        vec![
            task(0, "buy milk", Status::TODO),
            task(1, "walk, then run", Status::DELETED),
            task(2, "", Status::ELSE("LATER".to_string())),
        ]
    );
    assert_eq!(decode_all(b""), vec![]);
}

#[test]
fn records_that_hold_no_task_are_passed_over() {
    let tasks = decode_all(b"0,a,TODO\nnot a task\nx,b,TODO\n1,\xff\xfe,TODO\n2,c,DONE\n");
    assert_eq!(tasks, vec![task(0, "a", Status::TODO), task(2, "c", Status::DONE)]);
}

#[test]
fn what_was_written_is_what_is_read() {
    let tasks = vec![
        task(0, "a\nb", Status::TODO),
        task(1, "\"", Status::IN_PROGRESS),
        task(2, ",,,", Status::DONE),
        task(3, "", Status::DELETED),
        task(9, "x", Status::ELSE("SOMEDAY".to_string())),
    ];
    let image = encode_all(&tasks).unwrap();
    assert_eq!(decode_all(&image), tasks);
}

#[test]
fn a_long_content_is_read_back() {
    let mut content = String::new();
    for n in 0..20000u32 {
        content.push_str("word \"quoted\", ");
        if n % 7 == 0 {
            content.push('\n');
        }
    }
    let written = task(41, &content, Status::IN_PROGRESS);
    let line = encode(&written).unwrap();
    assert!(line.len() > 8 * 1024);
    assert_eq!(decode(&line), Some(written));
}

#[test]
fn a_long_text_of_records_is_read_back() {
    let mut tasks = Vec::new();
    for n in 0..3000u32 {
        tasks.push(task(n, &format!("task {}, with a comma", n), Status::TODO));
    }
    let image = encode_all(&tasks).unwrap();
    assert!(image.len() > 8 * 1024);
    assert_eq!(decode_all(&image), tasks);
}

#[test]
fn lines_that_end_in_carriage_return_and_line_feed_are_read() {
    assert_eq!(
        decode_all(b"0,a,TODO\r\n1,b,DONE\r\n"),
        vec![task(0, "a", Status::TODO), task(1, "b", Status::DONE)]
    );
}

fn field_as_stated(field: &str) -> Vec<u8> {
    let bytes = field.as_bytes();
    if !bytes.iter().any(|b| matches!(b, b',' | b'"' | b'\r' | b'\n')) {
        return bytes.to_vec();
    }
    let mut text = vec![b'"'];
    for b in bytes {
        if *b == b'"' {
            text.push(b'"');
        }
        text.push(*b);
    }
    text.push(b'"');
    text
}

fn line_as_stated(fields: &[String]) -> Vec<u8> {
    let mut text = Vec::new();
    for (n, field) in fields.iter().enumerate() {
        if n > 0 {
            text.push(b',');
        }
        text.extend_from_slice(&field_as_stated(field));
    }
    if text.is_empty() {
        text.extend_from_slice(b"\"\"");
    }
    text.push(b'\n');
    text
}

#[test]
fn a_line_is_its_fields_between_commas_quoted_where_needed() {
    let contents = [
        "",
        "plain",
        "a,b",
        "\"",
        "\"\"\"",
        "a\rb",
        "a\nb",
        "a\r\nb",
        " spaced ",
        "tab\there",
        "caf\u{e9}",
        "\u{feff}",
        "semi;colon",
        "back\\slash",
        "'",
        "#",
        "end\"",
        "\"start",
        ",",
    ];
    let mut all = Vec::new();
    let mut whole = Vec::new();
    for (n, content) in contents.iter().enumerate() {
        for name in ["TODO", "LATER", "a,b", "\"q\"", "x\ny", ""] {
            let written = task(n as u32 * 1000003, content, Status::from_token(name));
            let line = encode(&written).unwrap();
            assert_eq!(line, line_as_stated(&task_fields(&written)));
            whole.extend_from_slice(&line);
            all.push(written);
        }
    }
    assert_eq!(encode_all(&all).unwrap(), whole);
    assert_eq!(decode_all(&whole), all);
}

#[test]
fn a_status_name_with_a_comma_is_quoted_too() {
    assert_eq!(
        encode(&task(2, "", Status::ELSE("a,\"b\"\n".to_string()))).unwrap(),
        b"2,,\"a,\"\"b\"\"\n\"\n".to_vec()
    );
}

#[test]
fn the_line_of_a_task_holds_that_task_alone() {
    let written = task(8, "one\ntwo, three", Status::DONE);
    let line = encode(&written).unwrap();
    assert_eq!(decode_all(&line), vec![task(8, "one\ntwo, three", Status::DONE)]);
    assert_eq!(Database::load(&line).tasks.len(), 1);
}
