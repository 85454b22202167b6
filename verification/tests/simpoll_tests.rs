use simpoll::make_id::base62_char;
use simpoll::text::{join_strings, split_lines};
use simpoll::{make_questions, new_id, Question, SResponse, Survey, SurveyStore};

fn strings(v: &[&str]) -> Vec<String> {
    v.iter().map(|s| s.to_string()).collect()
}

fn fandango() -> Vec<&'static str> {
    vec!["Is this real life?", "Is this just fantasy?", "Will you do the Fandango?:yes,no"]
}

// parsing question without options:
#[test]
fn question_no_opts() {
    let test_string = "What is your name".to_string();
    let test_q = Question::new(0, &test_string);
    let ref_q = Question { number: 0, text: "What is your name".to_string(), options: None };
    assert_eq!(test_q, ref_q);
}

#[test]
fn question_with_opts() {
    let test_string = "Does correlation imply causation?:yes,no".to_string();
    let test_q = Question::new(0, &test_string);
    let ref_q = Question {
        number: 0,
        text: "Does correlation imply causation?".to_string(),
        options: Some(vec!["yes".to_string(), "no".to_string()]),
    };
    assert_eq!(test_q, ref_q);
}

// properly parsing vec of strings into a survey
#[test]
fn survey_qs_vec() {
    let qs_test = fandango();
    let test_survey = Survey::new(&qs_test);

    let qs_ref = vec![
        Question { number: 0, text: "Is this real life?".to_string(), options: None },
        Question { number: 1, text: "Is this just fantasy?".to_string(), options: None },
        Question {
            number: 2,
            text: "Will you do the Fandango?".to_string(),
            options: Some(vec!["yes".to_string(), "no".to_string()]),
        },
    ];

    // Only checking question parsing -- id is non-deterministic
    assert_eq!(test_survey.questions, qs_ref);
}

// generating html strings:
#[test]
fn qs_html() {
    let qs_test = fandango();
    let test_survey = Survey::new(&qs_test);

    let ref_string = "Is this real life?<br><input type=\"text\" name=\"q0\"></br>Is this just fantasy?<br><input type=\"text\" name=\"q1\"></br>Will you do the Fandango?<br><input type=\"radio\" name=\"q2\" value=\"yes\">yes<br><input type=\"radio\" name=\"q2\" value=\"no\">no<br>".to_string();

    assert_eq!(test_survey.to_form(), ref_string);
}

#[test]
fn question_trims_surrounding_white_space() {
    let q = Question::new(4, " \t Colour?:red,green \r\n");
    assert_eq!(q, Question { number: 4, text: "Colour?".to_string(), options: Some(strings(&["red", "green"])) });
    let q = Question::new(0, "\u{3000}wide\u{a0}");
    assert_eq!(q.text, "wide");
}

#[test]
fn question_keeps_inner_white_space_and_empty_pieces() {
    let q = Question::new(1, "A : b , ,c");
    assert_eq!(q, Question { number: 1, text: "A ".to_string(), options: Some(strings(&[" b ", " ", "c"])) });
    let q = Question::new(2, "Pick:");
    assert_eq!(q.options, Some(strings(&[""])));
    let q = Question::new(3, "");
    assert_eq!(q, Question { number: 3, text: String::new(), options: None });
}

#[test]
fn question_ignores_pieces_after_second_colon() {
    let q = Question::new(0, "Time:12:30,13:00");
    assert_eq!(q.text, "Time");
    assert_eq!(q.options, Some(strings(&["12"])));
}

#[test]
fn question_as_string() {
    let q = Question { number: 0, text: "Q".to_string(), options: Some(strings(&["a", "b", "c"])) };
    assert_eq!(q.as_string(), "Q:a,b,c");
    let q = Question { number: 0, text: "Free".to_string(), options: None };
    assert_eq!(q.as_string(), "Free");
    let q = Question { number: 0, text: "E".to_string(), options: Some(vec![]) };
    assert_eq!(q.as_string(), "E:");
}

#[test]
fn question_line_roundtrip() {
    let q = Question { number: 7, text: "Best pie?".to_string(), options: Some(strings(&["apple", "pecan pie"])) };
    assert_eq!(Question::new(7, &q.as_string()), q);
    let q = Question { number: 0, text: "Why?".to_string(), options: None };
    assert_eq!(Question::new(0, &q.as_string()), q);
}

#[test]
fn question_html_with_large_number() {
    let q = Question { number: 1203, text: "T".to_string(), options: None };
    assert_eq!(q.to_html_string(), "T<br><input type=\"text\" name=\"q1203\"></br>");
    let q = Question { number: 10, text: "C".to_string(), options: Some(vec![]) };
    assert_eq!(q.to_html_string(), "C<br>");
}

#[test]
fn make_questions_numbers_in_order() {
    let qs = make_questions(&vec!["a", "b:x", "c"]);
    let numbers: Vec<usize> = qs.iter().map(|q| q.number).collect();
    assert_eq!(numbers, vec![0, 1, 2]);
    assert!(make_questions(&vec![]).is_empty());
}

#[test]
fn new_ids_are_base62() {
    for size in [0usize, 1, 10, 100] {
        let id = new_id(size);
        assert_eq!(id.chars().count(), size);
        assert!(id.chars().all(|c| c.is_ascii_alphanumeric()));
    }
    let s = Survey::new(&vec!["q"]);
    assert_eq!(s.id.len(), 10);
    assert_eq!(s.key.len(), 10);
    assert!(s.id.chars().chain(s.key.chars()).all(|c| c.is_ascii_alphanumeric()));
}

#[test]
fn base62_alphabet() {
    let all: String = (0..62usize).map(base62_char).collect();
    assert_eq!(all, "0123456789ABCDEFGHIJKLMNOPQRSTUVWXYZabcdefghijklmnopqrstuvwxyz");
    assert_eq!(base62_char(62), '0');
    assert_eq!(base62_char(62 * 5 + 35), 'Z');
    assert_eq!(base62_char(usize::MAX), base62_char(usize::MAX % 62));
}

fn fixed_survey(lines: &[&str]) -> Survey {
    Survey { id: "ID1".to_string(), key: "KEY2".to_string(), questions: make_questions(&lines.to_vec()) }
}

#[test]
fn survey_statements() {
    let s = fixed_survey(&["a", "b"]);
    assert_eq!(s.to_stmnt(), "CREATE TABLE \"ID1\" (id string PRIMARY KEY,q0 TEXT,\nq1 TEXT,\ntime string\n)");
    assert_eq!(s.to_drop(), "DROP TABLE \"ID1\"");
    assert_eq!(s.get_results(), "SELECT * FROM \"ID1\"");
    let empty = fixed_survey(&[]);
    assert_eq!(empty.to_stmnt(), "CREATE TABLE \"ID1\" (id string PRIMARY KEY,time string\n)");
    let lines: Vec<String> = (0..11).map(|i| format!("x{}", i)).collect();
    let refs: Vec<&str> = lines.iter().map(|s| s.as_str()).collect();
    let big = fixed_survey(&refs);
    assert!(big.to_stmnt().contains("q9 TEXT,\nq10 TEXT,\ntime"));
}

#[test]
fn survey_file_contents_and_name() {
    let s = fixed_survey(&["a", "b:y,n"]);
    assert_eq!(s.file_contents(), "a\nb:y,n");
    assert_eq!(s.file_name(), "ID1-KEY2");
    assert_eq!(fixed_survey(&[]).file_contents(), "");
}

#[test]
fn survey_from_contents() {
    let s = Survey::from_contents("abc-def-ghi", "  one\r\ntwo:a,b\r\n\r\n");
    assert_eq!(s.id, "abc");
    assert_eq!(s.key, "def");
    assert_eq!(
        s.questions,
        vec![
            Question { number: 0, text: "one".to_string(), options: None },
            Question { number: 1, text: "two".to_string(), options: Some(strings(&["a", "b"])) },
        ]
    );
    // lines split by a bare "\n" stay one question
    let s = Survey::from_contents("i-k", "a\nb");
    assert_eq!(s.questions.len(), 1);
    assert_eq!(s.questions[0].text, "a\nb");
}

#[test]
fn survey_file_roundtrip_one_question() {
    let s = Survey::new(&vec!["Which day?:Mon,Tue"]);
    let back = Survey::from_contents(&s.file_name(), &s.file_contents());
    assert_eq!(back, s);
}

#[test]
fn results_csv() {
    let s = fixed_survey(&["a", "b"]);
    let rows = vec![strings(&["r1", "x", "y", "t1"]), strings(&["r2", "", "z", "t2"])];
    assert_eq!(s.results_csv(&rows), "\"id\",\"a\",\"b\",timestamp\nr1,x,y,t1\nr2,,z,t2\n");
    assert_eq!(fixed_survey(&[]).results_csv(&vec![]), "\"id\",timestamp\n");
}

#[test]
fn response_statement() {
    let r = SResponse {
        id: "R".to_string(),
        s_id: "S".to_string(),
        vals: vec![(0, "a".to_string(), "yes".to_string()), (12, "b".to_string(), "no response".to_string())],
    };
    assert_eq!(
        r.to_stmnt("2024"),
        "INSERT INTO \"S\" (id, q0, q12, time) VALUES (\"R\" ,\"yes\", \"no response\", \"2024\")"
    );
    let e = SResponse { id: "R".to_string(), s_id: "S".to_string(), vals: vec![] };
    assert_eq!(e.to_stmnt("t"), "INSERT INTO \"S\" (id, time) VALUES (\"R\" ,\"t\")");
}

#[test]
fn text_split_and_join() {
    assert_eq!(split_lines("a\r\nb\r\n"), strings(&["a", "b", ""]));
    assert_eq!(split_lines(""), strings(&[""]));
    assert_eq!(split_lines("\r\r\n\n"), strings(&["\r", "\n"]));
    assert_eq!(split_lines("x\ny"), strings(&["x\ny"]));
    assert_eq!(join_strings(&strings(&["a", "", "b"]), ", "), "a, , b");
    assert_eq!(join_strings(&vec![], ","), "");
    let s = "p:q::r";
    let pieces: Vec<String> = s.split(':').map(|x| x.to_string()).collect();
    assert_eq!(join_strings(&pieces, ":"), s);
}

#[test]
fn store_insert_get_and_authorization() {
    let mut store = SurveyStore::new();
    assert!(store.get("ID1").is_none());
    store.insert(fixed_survey(&["a"]));
    assert_eq!(store.get("ID1").unwrap().questions.len(), 1);
    store.insert(fixed_survey(&["a", "b"]));
    assert_eq!(store.get("ID1").unwrap().questions.len(), 2);
    let other = Survey { id: "ID9".to_string(), key: "K".to_string(), questions: vec![] };
    store.insert(other);
    assert!(store.authorized("ID1", "KEY2").is_some());
    assert!(store.authorized("ID1", "nope").is_none());
    assert!(store.authorized("ID7", "KEY2").is_none());
    assert!(store.remove_authorized("ID1", "wrong").is_none());
    assert!(store.get("ID1").is_some());
    let removed = store.remove_authorized("ID1", "KEY2").unwrap();
    assert_eq!(removed.id, "ID1");
    assert!(store.get("ID1").is_none());
    assert!(store.get("ID9").is_some());
}
