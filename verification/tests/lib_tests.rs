use generust::{parse, Composite, Generator, IntRnd, Integer, Text, Timestamp, Uuid4};

fn buf(size: usize) -> Vec<u8> {
    Vec::with_capacity(size)
}

fn str(vec: Vec<u8>) -> String {
    String::from_utf8(vec).expect("invalid utf8")
}

fn int_args(min: i64, max: i64) -> Vec<Vec<u8>> {
    vec![min.to_string().into_bytes(), max.to_string().into_bytes()]
}

#[test]
fn lib_test_text() {
    let text = "hello";
    let mut buf = buf(10);
    let mut gr = Text::parse(text).unwrap();
    assert!(Generator::generate(&mut gr, 0, &mut buf).is_ok());
    let str = str(buf);
    println!("text: {}", str);
    assert_eq!(text, str);
}

#[test]
fn test_uuid() {
    let mut buf = buf(32);
    let mut gr = Uuid4::create(&vec![]).unwrap();
    assert!(Generator::generate(&mut gr, 0, &mut buf).is_ok());
    let str = str(buf);
    assert!(uuid::Uuid::parse_str(&str).is_ok());
    println!("uuid4: {}", str);
}

#[test]
fn test_integer() {
    let mut buf = buf(16);
    let gr = Integer { min: 0, max: 100 };
    assert!(gr.generate(&mut buf).is_ok());
    let str = str(buf);
    assert!(str.parse::<i64>().is_ok());
    println!("int: {}", str);
}

#[test]
fn lib_test_timestamp() {
    let mut buf = buf(32);
    let mut gr = Timestamp::create(&vec![]).unwrap();
    assert!(Generator::generate(&mut gr, 0, &mut buf).is_ok());
    let str = str(buf);
    assert!(chrono::DateTime::parse_from_rfc3339(&str).is_ok());
    println!("timestamp: {}", str);
}

#[test]
fn lib_test_composite() {
    let mut buf = buf(128);
    let mut gr = Composite::new(vec![
        IntRnd::create(&int_args(0, 10)).unwrap(),
        Text::parse(", ").unwrap(),
        Timestamp::create(&vec![]).unwrap(),
        Text::parse(", ").unwrap(),
        Uuid4::create(&vec![]).unwrap(),
    ]);
    assert!(gr.generate(0, &mut buf).is_ok());
    let str = str(buf);
    println!("composite: {}", str);
}

#[test]
fn test_parse() {
    let mut buf = buf(128);
    let mut gr = parse("{ uuid: ${UUID}, timestamp: ${TIMESTAMP} }").unwrap();
    for i in 0..100 {
        let _ = gr.generate(i, &mut buf);
    }
    println!("{}", str(buf));
}
