use generust::{Composite, Generator, Parser, Text};

fn parser() -> Parser {
    Parser::new("\\$", ",").unwrap()
}

fn parse(name: &str) -> Composite {
    parser().parse(&format!("${{{}}}", name)).unwrap()
}

fn generate(g: &mut Composite, i: u32) -> String {
    let mut buf = Vec::with_capacity(512);
    assert!(g.generate(i, &mut buf).is_ok());
    let s = String::from_utf8(buf).expect("invalid utf8");
    s.strip_suffix('\n').expect("record terminator").to_string()
}

type Probe = fn(i: u32, s: &str);

fn roll(g: &mut Composite, f: Probe) {
    for i in 0..123 {
        f(i, &generate(g, i));
    }
}

fn is_iso_date(s: &str) -> bool {
    let parts: Vec<&str> = s.split('-').collect();
    parts.len() == 3 && parts.iter().all(|p| !p.is_empty() && p.chars().all(|c| c.is_ascii_digit()))
}

#[test]
fn generust_test_text() {
    let s1 = "hello";
    let mut g = Text::parse(s1).unwrap();
    let mut buf = Vec::with_capacity(512);
    assert!(Generator::generate(&mut g, 0, &mut buf).is_ok());
    let s2 = String::from_utf8(buf).expect("invalid utf8");
    assert_eq!(s1, s2);
}

#[test]
fn test_row_num() {
    let mut g = parse("ROW_NUM");
    roll(&mut g, |i, s| {
        assert_eq!(i, s.parse().unwrap());
    });
}

#[test]
fn test_int_seq() {
    let mut g = parse("INT_SEQ(3, 17)");
    roll(&mut g, |_, s| assert!(s.parse::<i32>().is_ok()));
}

#[test]
fn test_int_rnd() {
    let mut g = parse("INT_RND(3, 17)");
    roll(&mut g, |_, s| assert!(s.parse::<i32>().is_ok()));
}

#[test]
fn test_date_seq() {
    let mut g = parse("DATE_SEQ(2010-01-01,2020-02-02)");
    roll(&mut g, |_, s| {
        assert!(s.parse::<chrono::NaiveDate>().is_ok());
    });
}

#[test]
fn test_date_rnd() {
    let mut g = parse("DATE_RND(2010-01-01,2020-02-02)");
    roll(&mut g, |_, s| {
        assert!(s.parse::<chrono::NaiveDate>().is_ok());
    });
}

#[test]
fn test_uuid4() {
    let mut g = parse("UUID4");
    roll(&mut g, |_, s| {
        assert!(uuid::Uuid::parse_str(s).is_ok());
    });
}

#[test]
fn test_ipv4() {
    let mut g = parse("IPV4");
    roll(&mut g, |_, s| {
        let octets: Vec<&str> = s.split('.').collect();
        assert_eq!(octets.len(), 4);
        for o in octets {
            let v = o.parse::<u8>().unwrap();
            assert!((1..=254).contains(&v));
        }
    });
}

#[test]
fn generust_test_timestamp() {
    let mut g = parse("TIMESTAMP");
    roll(&mut g, |_, s| {
        assert!(chrono::DateTime::parse_from_rfc3339(s).is_ok());
    });
}

#[test]
fn test_enum_seq() {
    let mut g = parse("ENUM_SEQ(1,2,3)");
    roll(&mut g, |_, s| {
        assert!(s.parse::<i32>().is_ok());
    });
}

#[test]
fn test_enum_rnd() {
    let mut g = parse("ENUM_RND(1,2,3)");
    roll(&mut g, |_, s| {
        assert!(s.parse::<i32>().is_ok());
    });
}

#[test]
fn test_timezone() {
    let mut p = parser();
    p.set_time_zones(vec![b"UTC".to_vec(), b"GMT".to_vec(), b"CET".to_vec()]);
    let mut g = p.parse("${TIME_ZONE}").unwrap();
    roll(&mut g, |_, s| {
        assert!(!s.is_empty());
    });
}

#[test]
fn test_boolean() {
    let mut g = parse("BOOLEAN");
    roll(&mut g, |_, s| {
        assert!(s.eq("true") || s.eq("false"));
    });
}

#[test]
fn test_gender() {
    let mut g = parse("GENDER");
    roll(&mut g, |_, s| {
        assert!(s.eq("Male") || s.eq("Female"));
    });
}

#[test]
fn test_phone() {
    let mut g = parse("PHONE");
    roll(&mut g, |_, s| {
        assert!(!s.is_empty());
    });
}

#[test]
fn test_bytes_seq() {
    let mut g = parse("FIRST_SEQ");
    roll(&mut g, |_, s| {
        assert!(!s.is_empty());
    });
}

#[test]
fn test_bytes_rnd() {
    let mut g = parse("FIRST_RND");
    roll(&mut g, |_, s| {
        assert!(!s.is_empty());
    });
}

#[test]
fn generust_test_composite() {
    let mut g = parser()
        .parse("@{UUID4},@{ENUM_SEQ(1,2,3),@{INT_RND(1,10)}")
        .unwrap();
    let mut buf = Vec::with_capacity(128);
    assert!(g.generate(0, &mut buf).is_ok());
}

#[test]
fn date_seq_format_is_iso() {
    let mut g = parse("DATE_SEQ(1999-12-30,2000-01-03)");
    roll(&mut g, |_, s| {
        assert!(is_iso_date(s));
    });
}
