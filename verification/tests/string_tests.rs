use attr_helpers::string_of;

#[test]
fn test_macros() {
    // String
    assert_eq!(string_of(&String::from("hello")), String::from("hello"));
    assert_eq!(&string_of(&String::from("hello"))[..], "hello");
    // &str
    assert_eq!(string_of("hello"), String::from("hello"));
    assert_eq!(string_of(&"hello"), String::from("hello"));
    // slice
    assert_eq!(string_of(&"hello"[..]), String::from("hello"));
    assert_eq!(string_of(&&"hello"[..]), String::from("hello"));
    // char
    assert_eq!(string_of(&"hello".chars().next().unwrap()), String::from("h"));
    // i32 u32 i8 ...
    assert_eq!(string_of(&123), String::from("123"));
    assert_eq!(string_of(&-123), String::from("-123"));
    // f32 f64 ...
    assert_eq!(string_of(&1.23), String::from("1.23"));
    assert_eq!(string_of(&-1.23), String::from("-1.23"));
}
