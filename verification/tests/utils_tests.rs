use appcui::format_ratings::FormatRatings;
use appcui::kv_parser::{KeyValueParser, ValueType};
use appcui::temp_store::{TempBuffer, TempString};

#[test]
fn check_key_value_parser_single() {
    let mut p = KeyValueParser::new("abc=2");
    let k = p.next().unwrap();
    assert_eq!(k.key, "abc");
    assert_eq!(k.numerical_value, 2);
    assert_eq!(k.value_type, ValueType::Number);
    assert_eq!(p.next(), None);
}

#[test]
fn check_key_value_parser_double() {
    let mut p = KeyValueParser::new("abc=2,xyz=10%");
    let k = p.next().unwrap();
    assert_eq!(k.key, "abc");
    assert_eq!(k.numerical_value, 2);
    assert_eq!(k.value_type, ValueType::Number);
    let k = p.next().unwrap();
    assert_eq!(k.key, "xyz");
    assert_eq!(k.numerical_value, 1000);
    assert_eq!(k.value_type, ValueType::Percentage);
    assert_eq!(p.next(), None);
}

#[test]
fn check_key_value_parser_text() {
    let mut p = KeyValueParser::new("  abc  =  2 ,  xyz=10%   , some_value : another_value   ");
    let k = p.next().unwrap();
    assert_eq!(k.key, "abc");
    assert_eq!(k.numerical_value, 2);
    assert_eq!(k.value_type, ValueType::Number);
    let k = p.next().unwrap();
    assert_eq!(k.key, "xyz");
    assert_eq!(k.numerical_value, 1000);
    assert_eq!(k.value_type, ValueType::Percentage);
    let k = p.next().unwrap();
    assert_eq!(k.key, "some_value");
    assert_eq!(k.value_type, ValueType::String);
    assert_eq!(k.value, "another_value");
    assert_eq!(p.next(), None);
}

#[test]
fn check_rating_report() {
    let mut buf_3: Vec<u8> = vec![0; 3];
    let mut buf_4: Vec<u8> = vec![0; 4];
    let mut buf_5: Vec<u8> = vec![0; 5];
    let mut buf: Vec<u8> = vec![0; 20];

    assert_eq!(FormatRatings::raport(0, 3, &mut buf_3), Some("0/3"));
    assert_eq!(FormatRatings::raport(2, 3, &mut buf_3), Some("2/3"));
    assert_eq!(FormatRatings::raport(2, 3, &mut buf_4), Some("2/3"));
    assert_eq!(FormatRatings::raport(2, 3, &mut buf_5), Some("2/3"));
    assert_eq!(FormatRatings::raport(22, 33, &mut buf_5), Some("22/33"));

    assert_eq!(FormatRatings::raport(1234, 12345, &mut buf), Some("1234/12345"));
    assert_eq!(FormatRatings::raport(0, 0, &mut buf_3), Some("0/0"));
    assert_eq!(FormatRatings::raport(10, 10, &mut buf_3), None);
    assert_eq!(FormatRatings::raport(5, 10, &mut buf_3), None);
    assert_eq!(FormatRatings::raport(5, 10, &mut buf_4), Some("5/10"));
}

#[test]
fn check_rating_two_chars() {
    let mut buf_3: Vec<u8> = vec![0; 3];
    let mut buf_4: Vec<u8> = vec![0; 4];
    let mut buf_5: Vec<u8> = vec![0; 5];
    let mut buf: Vec<u8> = vec![0; 20];

    assert_eq!(FormatRatings::two_chars(' ', '+', 0, 3, 3, &mut buf), Some("   "));
    assert_eq!(FormatRatings::two_chars(' ', '+', 0, 3, 3, &mut buf_3), Some("   "));
    assert_eq!(FormatRatings::two_chars('-', '+', 1, 3, 3, &mut buf_3), Some("+--"));
    assert_eq!(FormatRatings::two_chars('-', '+', 3, 3, 3, &mut buf_3), Some("+++"));
    assert_eq!(FormatRatings::two_chars('-', '+', 3, 4, 4, &mut buf_4), Some("+++-"));
    assert_eq!(FormatRatings::two_chars('-', '+', 20, 100, 5, &mut buf_5), Some("+----"));

    assert_eq!(FormatRatings::two_chars(' ', '+', 0, 3, 5, &mut buf_3), None);
}

#[test]
fn check_temp_string() {
    let t: TempString<10> = TempString::new("1234567890");
    assert_eq!(t.as_str(), "1234567890");
    assert!(!t.is_on_heap());
    let t: TempString<10> = TempString::new("1234567890A");
    assert_eq!(t.as_str(), "1234567890A");
    assert!(t.is_on_heap());
}

#[test]
fn check_temp_buffer() {
    let buf: TempBuffer<10> = TempBuffer::new(&[1, 2, 3, 4, 5, 6, 7, 8, 9, 10]);
    assert_eq!(buf.as_slice(), &[1, 2, 3, 4, 5, 6, 7, 8, 9, 10]);
    assert!(!buf.is_on_heap());
    let buf: TempBuffer<10> = TempBuffer::new(&[1, 2, 3, 4, 5, 6, 7, 8, 9, 10, 11]);
    assert_eq!(buf.as_slice(), &[1, 2, 3, 4, 5, 6, 7, 8, 9, 10, 11]);
    assert!(buf.is_on_heap());
}

#[test]
fn check_key_value_parser_forms() {
    let mut p = KeyValueParser::new("a:5%,b:-3,c:12.5%,d:12.34%,e:99999999999,f");
    let k = p.next().unwrap();
    assert_eq!(k.key, "a");
    assert_eq!(k.value_type, ValueType::Percentage);
    assert_eq!(k.numerical_value, 500);
    let k = p.next().unwrap();
    assert_eq!(k.key, "b");
    assert_eq!(k.value_type, ValueType::Number);
    assert_eq!(k.numerical_value, -3);
    let k = p.next().unwrap();
    assert_eq!(k.value_type, ValueType::Percentage);
    assert_eq!(k.numerical_value, 1250);
    let k = p.next().unwrap();
    assert_eq!(k.value_type, ValueType::Percentage);
    assert_eq!(k.numerical_value, 1234);
    let k = p.next().unwrap();
    // out of the machine range: kept as plain text
    assert_eq!(k.value_type, ValueType::String);
    assert_eq!(k.value, "99999999999");
    let k = p.next().unwrap();
    // a bare word: a key with an empty text value
    assert_eq!(k.key, "f");
    assert_eq!(k.value, "");
    assert_eq!(k.value_type, ValueType::String);
    assert_eq!(p.next(), None);
}

#[test]
fn check_rating_two_chars_overfull() {
    let mut buf: Vec<u8> = vec![0; 8];
    // more value than max: every mark is full, never past `count`
    assert_eq!(FormatRatings::two_chars('.', '#', 9, 3, 4, &mut buf), Some("####"));
    // a zero maximum never fills a mark
    assert_eq!(FormatRatings::two_chars('.', '#', 5, 0, 4, &mut buf), Some("...."));
}
