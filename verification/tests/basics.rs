use primer::arith;
use primer::decimal;
use primer::mapping::LabelMap;
use primer::replace;
use primer::search;
use primer::slice;
use primer::split;
use primer::text;
use primer::user::User;

#[test]
fn add_test1() {
    assert!(arith::add(1, 2) == 3);
}

#[test]
fn add_test2() {
    assert_eq!(arith::add(2, 4), 6);
}

#[test]
fn add_test3() {
    assert_ne!(arith::add(3, 6), 8);
}

#[test]
fn assert_struct() {
    let user1 = User {
        name: String::from("bob"),
        age: 12,
    };
    let user2 = User {
        name: "bob".to_string(),
        age: 12,
    };
    assert_eq!(user1, user2);
}

#[test]
fn user_equality_cases() {
    let a = User::new(String::from("bob"), 12);
    let b = User::new(String::from("bob"), 12);
    let other_name = User::new(String::from("alice"), 12);
    let other_age = User::new(String::from("bob"), 13);
    assert!(a == b);
    assert!(a != other_name);
    assert!(a != other_age);
}

#[test]
fn user_new_and_updates() {
    let base = User::new(String::from("jon"), 21);
    assert_eq!(base.name, "jon");
    assert_eq!(base.age, 21);
    let renamed = base.with_name(String::from("alice"));
    assert_eq!(renamed.name, "alice");
    assert_eq!(renamed.age, 21);
    let aged = base.with_age(30);
    assert_eq!(aged.name, "jon");
    assert_eq!(aged.age, 30);
}

#[test]
fn user_describe_line() {
    let u = User::new(String::from("jon"), 21);
    assert_eq!(u.describe("hello!"), "I'm jon, 21 old. hello!!");
    let v = User::new(String::from("bob"), -3);
    assert_eq!(v.describe("good night!"), "I'm bob, -3 old. good night!!");
}

#[test]
fn change_name_appends_sun() {
    let mut name = String::from("alice");
    text::change_name(&mut name);
    assert_eq!(name, "alice sun");
}

#[test]
fn code_point_count_nonascii() {
    let word = "あ意Uえ尾";
    assert_eq!(text::char_count(word), 5);
    assert_eq!(text::chars_vec(word).len(), 5);
    assert!(text::byte_count(word) > 5);
    assert_eq!(text::byte_count(word), 13);
    let ascii = "abc";
    assert_eq!(text::char_count(ascii), 3);
    assert_eq!(text::byte_count(ascii), 3);
}

#[test]
fn nth_char_in_and_out_of_range() {
    let word = "Rhogeあ森";
    assert_eq!(text::nth_char(word, 5), Some('あ'));
    assert_eq!(text::nth_char(word, 1), Some('h'));
    assert_eq!(text::nth_char(word, 7), None);
}

#[test]
fn prefix_and_middle_substring() {
    let word = "あ意Uえ尾";
    assert_eq!(text::prefix_chars(word, 2), "あ意");
    assert_eq!(text::prefix_chars(word, 9), "あ意Uえ尾");
    assert_eq!(text::substring_chars(word, 1, 3), "意U");
}

#[test]
fn string_round_trip_through_chars() {
    let word = "東京タワー";
    let cs = text::chars_vec(word);
    assert_eq!(text::string_from_chars(&cs), word);
}

#[test]
fn find_present_and_absent() {
    assert_eq!(search::find("あいうえお", "いう"), Some(3));
    assert_eq!(search::find("あいうえお", "かき"), None);
    assert_eq!(search::find("あいうえお", ""), Some(0));
}

#[test]
fn replace_station_with_tower() {
    assert_eq!(
        replace::replace("東京特許許可局", "特許許可局", "タワー"),
        "東京タワー"
    );
    assert_eq!(replace::replace("aa", "aa", "b"), "b");
    assert_eq!(replace::replace("ab", "", "-"), "-a-b-");
}

#[test]
fn split_on_comma() {
    let parts = split::split_char("a,b,c,d,e", ',');
    assert_eq!(parts, vec!["a", "b", "c", "d", "e"]);
    assert_eq!(split::split_char("", ','), vec![""]);
    assert_eq!(split::split_char(",", ','), vec!["", ""]);
}

#[test]
fn join_fragments() {
    let word = vec![String::from("O"), String::from("K")];
    assert_eq!(split::join(&word, ""), "OK");
    let csv = vec![String::from("a"), String::from("b"), String::from("c")];
    assert_eq!(split::join(&csv, ","), "a,b,c");
    assert_eq!(split::join(&Vec::new(), ","), "");
}

#[test]
fn mapping_insert_get_overwrite() {
    let mut m = LabelMap::new();
    m.insert(String::from("A"), 1);
    m.insert(String::from("B"), 2);
    assert_eq!(m.get("B"), Some(2));
    assert_eq!(m.get("C"), None);
    m.insert(String::from("B"), 99);
    assert_eq!(m.get("B"), Some(99));
    assert!(m.contains_key("A"));
    m.remove("A");
    assert_eq!(m.get("A"), None);
}

#[test]
fn growable_sequence_pop_push() {
    let mut nums: Vec<i32> = vec![1, 2, 3, 4];
    assert_eq!(nums.pop(), Some(4));
    assert_eq!(nums, vec![1, 2, 3]);
    nums.push(5);
    assert_eq!(nums, vec![1, 2, 3, 5]);
    assert_eq!(nums.len(), 4);
}

#[test]
fn slice_text_byte_ranges() {
    assert_eq!(slice::slice_bytes("abcde", 0, 2), Some(String::from("ab")));
    assert_eq!(slice::slice_bytes("abcde", 0, 5), Some(String::from("abcde")));
    assert_eq!(slice::slice_bytes("あいうえお", 0, 1), None);
    assert_eq!(slice::slice_bytes("あいうえお", 0, 3), Some(String::from("あ")));
    assert_eq!(slice::slice_bytes("abcde", 3, 2), None);
    assert_eq!(slice::slice_bytes("abcde", 0, 6), None);
}

#[test]
fn decimal_renderings() {
    assert_eq!(decimal::i32_to_string(0), "0");
    assert_eq!(decimal::i32_to_string(12345), "12345");
    assert_eq!(decimal::i32_to_string(-7), "-7");
    assert_eq!(decimal::i32_to_string(i32::MAX), "2147483647");
    assert_eq!(decimal::i32_to_string(i32::MIN), "-2147483648");
    assert_eq!(decimal::u32_to_string(1000000), "1000000");
}
