use generust::{next_line, random_line, Composite, Error, Integer, Parser};

fn compile(template: &str) -> Composite {
    Parser::new("\\$", ",").unwrap().parse(template).unwrap()
}

fn record(c: &mut Composite, i: u32) -> String {
    let mut buf = Vec::new();
    assert!(c.generate(i, &mut buf).is_ok());
    String::from_utf8(buf).expect("invalid utf8")
}

fn line(c: &mut Composite, i: u32) -> String {
    let s = record(c, i);
    s.strip_suffix('\n').expect("record terminator").to_string()
}

#[test]
fn literal_template_is_echoed() {
    let t = "no macros here, just text with } and ( braces";
    let mut c = compile(t);
    for i in 0..10 {
        assert_eq!(record(&mut c, i), format!("{}\n", t));
    }
}

#[test]
fn empty_template_gives_bare_terminator() {
    let mut c = compile("");
    assert_eq!(record(&mut c, 0), "\n");
}

#[test]
fn counter_echoes_index() {
    let mut c = compile("${ROW_NUM}");
    for i in 0..50 {
        assert_eq!(line(&mut c, i), i.to_string());
    }
}

#[test]
fn counter_with_start_offsets_index() {
    let mut c = compile("${ROW_NUM(5)}");
    for i in 0..50 {
        assert_eq!(line(&mut c, i), (5 + i).to_string());
    }
}

#[test]
fn bounded_random_int_stays_in_range() {
    let mut c = compile("${INT_RND(3,17)}");
    for i in 0..10_000 {
        let v: i32 = line(&mut c, i).parse().unwrap();
        assert!((3..17).contains(&v));
    }
}

#[test]
fn enum_seq_cycles_exactly() {
    let mut c = compile("${ENUM_SEQ(a,b,c)}");
    let expect = ["a", "b", "c", "a", "b", "c", "a", "b", "c"];
    for i in 0..9 {
        assert_eq!(line(&mut c, i as u32), expect[i]);
    }
}

#[test]
fn enum_seq_trims_argument_whitespace() {
    let mut c = compile("${ENUM_SEQ( a , b )}");
    assert_eq!(line(&mut c, 0), "a");
    assert_eq!(line(&mut c, 1), "b");
}

#[test]
fn file_seq_wraps_after_three_lines() {
    let mut c = compile("${FILE_SEQ(names.txt)}");
    assert_eq!(c.size(), 1);
    let path = c.pending_path(0).expect("pending file");
    assert_eq!(path, b"names.txt".to_vec());
    c.attach_file(0, b"one\ntwo\nthree\n".to_vec()).unwrap();
    assert_eq!(line(&mut c, 0), "one");
    assert_eq!(line(&mut c, 1), "two");
    assert_eq!(line(&mut c, 2), "three");
    assert_eq!(line(&mut c, 3), "one");
    for i in 4..20 {
        assert!(!line(&mut c, i).contains('\n'));
    }
}

#[test]
fn unattached_file_fails_and_leaves_sink_empty() {
    let mut c = compile("${FILE_RND(names.txt)}");
    let mut buf = Vec::new();
    assert!(matches!(c.generate(0, &mut buf), Err(Error::Io(_))));
    assert!(buf.is_empty());
}

#[test]
fn attaching_empty_file_is_an_empty_corpus() {
    let mut c = compile("${FILE_RND(names.txt)}");
    assert!(matches!(c.attach_file(0, Vec::new()), Err(Error::EmptyCorpus)));
}

#[test]
fn uuid_is_canonical_and_distinct() {
    let mut c = compile("${UUID4}");
    let mut seen: Vec<String> = Vec::new();
    for i in 0..1000 {
        let s = line(&mut c, i);
        assert_eq!(s.len(), 36);
        for (k, ch) in s.chars().enumerate() {
            if k == 8 || k == 13 || k == 18 || k == 23 {
                assert_eq!(ch, '-');
            } else {
                assert!(ch.is_ascii_hexdigit() && !ch.is_ascii_uppercase());
            }
        }
        assert_eq!(s.as_bytes()[14], b'4');
        assert!(matches!(s.as_bytes()[19], b'8' | b'9' | b'a' | b'b'));
        seen.push(s);
    }
    seen.sort();
    seen.dedup();
    assert_eq!(seen.len(), 1000);
}

#[test]
fn unknown_macro_degrades_to_literal() {
    let mut c = compile("x${BAD_NAME(1,2)}y");
    for i in 0..10 {
        assert_eq!(line(&mut c, i), "x${BAD_NAME(1,2)}y");
    }
}

#[test]
fn too_many_integer_arguments_fail_compilation() {
    let r = Parser::new("\\$", ",").unwrap().parse("${INT_RND(1,2,3)}");
    match r {
        Err(Error::Macro(name)) => assert_eq!(name, "INT_RND"),
        other => panic!("expected a macro-argument error, got {:?}", other.map(|_| ())),
    }
}

#[test]
fn compiling_twice_repeats_deterministic_output() {
    let t = "${ROW_NUM}-${ENUM_SEQ(a,b,c)}-${INT_SEQ(3,17)}-lit";
    let mut c1 = compile(t);
    let mut c2 = compile(t);
    for i in 0..40 {
        assert_eq!(record(&mut c1, i), record(&mut c2, i));
    }
}

#[test]
fn date_seq_steps_and_wraps() {
    let mut c = compile("${DATE_SEQ(2010-01-01,2010-01-04)}");
    assert_eq!(line(&mut c, 0), "2010-01-01");
    assert_eq!(line(&mut c, 1), "2010-01-02");
    assert_eq!(line(&mut c, 2), "2010-01-03");
    assert_eq!(line(&mut c, 3), "2010-01-01");
}

#[test]
fn date_seq_reversed_steps_backward() {
    let mut c = compile("${DATE_SEQ(2010-01-04,2010-01-01)}");
    assert_eq!(line(&mut c, 0), "2010-01-04");
    assert_eq!(line(&mut c, 1), "2010-01-03");
    assert_eq!(line(&mut c, 2), "2010-01-02");
    assert_eq!(line(&mut c, 3), "2010-01-04");
}

#[test]
fn date_seq_same_day_is_constant() {
    let mut c = compile("${DATE_SEQ(2015-06-07,2015-06-07)}");
    for i in 0..5 {
        assert_eq!(line(&mut c, i), "2015-06-07");
    }
}

#[test]
fn date_rnd_stays_between_bounds() {
    let mut c = compile("${DATE_RND(2010-01-01,2010-01-10)}");
    let lo: chrono::NaiveDate = "2010-01-01".parse().unwrap();
    let hi: chrono::NaiveDate = "2010-01-10".parse().unwrap();
    for i in 0..500 {
        let d: chrono::NaiveDate = line(&mut c, i).parse().unwrap();
        assert!(lo <= d && d <= hi);
    }
}

#[test]
fn date_without_arguments_is_valid() {
    let mut c = compile("${DATE_SEQ}");
    for i in 0..5 {
        assert!(line(&mut c, i).parse::<chrono::NaiveDate>().is_ok());
    }
}

#[test]
fn epoch_day_bounds_match_the_calendar_library() {
    assert!(chrono::NaiveDate::from_epoch_days(95_026_236).is_some());
    assert!(chrono::NaiveDate::from_epoch_days(95_026_237).is_none());
    assert!(chrono::NaiveDate::from_epoch_days(-96_465_292).is_some());
    assert!(chrono::NaiveDate::from_epoch_days(-96_465_293).is_none());
}

#[test]
fn bad_integer_argument_is_a_parse_error() {
    let r = Parser::new("\\$", ",").unwrap().parse("${ROW_NUM(abc)}");
    assert!(matches!(r, Err(Error::ParseInt)));
}

#[test]
fn bad_date_argument_is_a_parse_error() {
    let r = Parser::new("\\$", ",").unwrap().parse("${DATE_SEQ(then,now)}");
    assert!(matches!(r, Err(Error::ParseDate)));
}

#[test]
fn argument_on_bare_macro_fails() {
    let r = Parser::new("\\$", ",").unwrap().parse("${UUID4(1)}");
    assert!(matches!(r, Err(Error::Macro(_))));
}

#[test]
fn empty_integer_range_fails_compilation() {
    let r = Parser::new("\\$", ",").unwrap().parse("${INT_SEQ(5,5)}");
    assert!(matches!(r, Err(Error::Macro(_))));
}

#[test]
fn timezone_without_names_is_recoverable() {
    let r = Parser::new("\\$", ",").unwrap().parse("${TIME_ZONE}");
    assert!(matches!(r, Err(Error::Io(_))));
}

#[test]
fn trailing_backslash_is_a_pattern_error() {
    assert!(matches!(Parser::new("\\", ","), Err(Error::Pattern)));
}

#[test]
fn custom_trigger_prefix_is_honoured() {
    let mut c = Parser::new("@", ",").unwrap().parse("id=@{ROW_NUM} $ {x}").unwrap();
    assert_eq!(line(&mut c, 7), "id=7 $ {x}");
}

#[test]
fn unterminated_brace_stays_literal() {
    let mut c = compile("a${ROW_NUM never closed");
    assert_eq!(line(&mut c, 3), "a${ROW_NUM never closed");
}

#[test]
fn empty_braces_stay_unmatched() {
    let mut c = compile("a${}b");
    assert_eq!(line(&mut c, 0), "a${}b");
}

#[test]
fn mixed_template_interleaves_text_and_macros() {
    let mut c = compile("n=${ROW_NUM}; v=${ENUM_SEQ(x,y)};");
    assert_eq!(line(&mut c, 0), "n=0; v=x;");
    assert_eq!(line(&mut c, 1), "n=1; v=y;");
    assert_eq!(line(&mut c, 2), "n=2; v=x;");
}

#[test]
fn int_seq_wraps_modulo_span() {
    let mut c = compile("${INT_SEQ(3,6)}");
    let expect = [3, 4, 5, 3, 4, 5];
    for i in 0..6 {
        assert_eq!(line(&mut c, i as u32), expect[i].to_string());
    }
}

#[test]
fn phone_matches_fixed_pattern() {
    let mut c = compile("${PHONE}");
    for i in 0..200 {
        let s = line(&mut c, i);
        let parts: Vec<&str> = s.split('-').collect();
        assert_eq!(parts.len(), 4);
        assert_eq!(parts[0], "8");
        assert_eq!(parts[1].len(), 3);
        assert_eq!(parts[2].len(), 3);
        assert_eq!(parts[3].len(), 4);
        assert!(parts.iter().all(|p| p.chars().all(|ch| ch.is_ascii_digit())));
    }
}

#[test]
fn corpus_lines_carry_no_newline() {
    for name in ["FIRST_RND", "FIRST_SEQ", "LAST_RND", "LAST_SEQ", "DOMAIN_SEQ",
        "COUNTRY_CODE_RND"] {
        let mut c = compile(&format!("${{{}}}", name));
        for i in 0..50 {
            let s = line(&mut c, i);
            assert!(!s.is_empty());
            assert!(!s.contains('\n'));
        }
    }
}

#[test]
fn next_line_walks_and_wraps() {
    let data = b"ab\ncd\nef";
    let mut offset = 0usize;
    assert_eq!(next_line(data, &mut offset), b"ab");
    assert_eq!(offset, 3);
    assert_eq!(next_line(data, &mut offset), b"cd");
    assert_eq!(offset, 6);
    assert_eq!(next_line(data, &mut offset), b"ef");
    assert_eq!(offset, 0);
    assert_eq!(next_line(data, &mut offset), b"ab");
}

#[test]
fn random_line_of_single_line_buffer_is_the_buffer() {
    let data = b"only line, no terminator";
    for _ in 0..20 {
        assert_eq!(random_line(data), data);
    }
}

#[test]
fn legacy_integer_rejects_empty_range() {
    let gr = Integer { min: 7, max: 7 };
    let mut buf = Vec::new();
    assert!(gr.generate(&mut buf).is_err());
    assert!(buf.is_empty());
}

#[test]
fn legacy_integer_spans_extreme_bounds() {
    let gr = Integer { min: i64::MIN, max: i64::MAX };
    for _ in 0..100 {
        let mut buf = Vec::new();
        assert!(gr.generate(&mut buf).is_ok());
        assert!(String::from_utf8(buf).unwrap().parse::<i64>().is_ok());
    }
}

#[test]
fn enum_without_values_fails() {
    let r = Parser::new("\\$", ",").unwrap().parse("${ENUM_RND}");
    match r {
        Err(Error::Macro(name)) => assert_eq!(name, "ENUM_RND"),
        other => panic!("expected a macro-argument error, got {:?}", other.map(|_| ())),
    }
}

#[test]
fn enum_with_one_empty_value_compiles() {
    let mut c = compile("${ENUM_RND()}");
    assert_eq!(line(&mut c, 0), "");
}

#[test]
fn custom_separator_splits_arguments() {
    let mut c = Parser::new("\\$", "~").unwrap().parse("${ENUM_SEQ(a,b~c)}").unwrap();
    assert_eq!(line(&mut c, 0), "a,b");
    assert_eq!(line(&mut c, 1), "c");
}

#[test]
fn nested_parentheses_follow_the_grammar() {
    // The name runs to the last opening parenthesis that still has a
    // closing one after it; here that leaves an unknown name, so the
    // span stays literal.
    let mut c = compile("${ENUM_SEQ(a(b,c)}");
    assert_eq!(line(&mut c, 0), "${ENUM_SEQ(a(b,c)}");
}

#[test]
fn int_seq_reversed_bounds_wrap_upward() {
    let mut c = compile("${INT_SEQ(6,3)}");
    let expect = [6, 7, 8, 6, 7, 8];
    for i in 0..6 {
        assert_eq!(line(&mut c, i as u32), expect[i].to_string());
    }
}

#[test]
fn timestamp_has_the_rfc3339_shape() {
    let mut c = compile("${TIMESTAMP}");
    for i in 0..50 {
        let s = line(&mut c, i);
        assert!(s.len() >= 25);
        assert!(s
            .bytes()
            .all(|b| b.is_ascii_digit() || matches!(b, b'+' | b'-' | b'.' | b':' | b'T')));
        assert!(chrono::DateTime::parse_from_rfc3339(&s).is_ok());
    }
}

#[test]
fn negative_bounds_parse_and_wrap() {
    let mut c = compile("${INT_SEQ(-2,1)}");
    let expect = ["-2", "-1", "0", "-2"];
    for i in 0..4 {
        assert_eq!(line(&mut c, i as u32), expect[i]);
    }
}

#[test]
fn negative_counter_start_crosses_zero() {
    let mut c = compile("${ROW_NUM(-3)}");
    let expect = ["-3", "-2", "-1", "0", "1"];
    for i in 0..5 {
        assert_eq!(line(&mut c, i as u32), expect[i]);
    }
}

#[test]
fn two_files_attach_by_index() {
    let mut c = compile("${FILE_SEQ(a.txt)}-${FILE_SEQ(b.txt)}");
    let mut pending = Vec::new();
    for idx in 0..c.size() {
        if let Some(p) = c.pending_path(idx) {
            pending.push((idx, p));
        }
    }
    assert_eq!(pending.len(), 2);
    assert_eq!(pending[0].1, b"a.txt".to_vec());
    assert_eq!(pending[1].1, b"b.txt".to_vec());
    c.attach_file(pending[0].0, b"x\ny\n".to_vec()).unwrap();
    c.attach_file(pending[1].0, b"u\nv\n".to_vec()).unwrap();
    assert_eq!(line(&mut c, 0), "x-u");
    assert_eq!(line(&mut c, 1), "y-v");
    assert_eq!(line(&mut c, 2), "x-u");
}
