use hermit_core::guid::{guid_to_db, read_guids, write_guids, Guid};
use hermit_core::item_type_lookup::ItemTypeNames;
use hermit_core::json::{envelope_text, guid_json, number_json, sorted_envelope_text};
use hermit_core::model::{media_type_name, BaseItemKind, MediaType};
use hermit_core::number_text::{int_text, parse_i32_chars, parse_i64_chars};
use hermit_core::paging::{page_of, record_count, take_page};
use hermit_core::sort::text_before;
use hermit_core::table::Table;
use hermit_core::text::{
    blank, chars_of, concat3, contains_text, ends_with_chars, eq_ignore_ascii_case, find_char,
    find_either, join_texts, rfind_char, same_chars, same_text, split_chars, split_either,
    split_once_chars, starts_with_chars, string_of, text_lines, to_ascii_lowercase,
    to_ascii_uppercase, trim, trim_end_of, trim_matches, trim_start_of,
};
use hermit_core::time::{now, Timestamp, EARLIEST_NANOS, LATEST_NANOS};

fn owned(parts: &[&str]) -> Vec<String> {
    parts.iter().map(|p| (*p).to_owned()).collect()
}

#[test]
fn text_is_trimmed_of_white_space() {
    assert_eq!(trim(" \t a b \u{3000}\n"), "a b");
    assert_eq!(trim("\u{a0}\u{2003}"), "");
    assert_eq!(trim("\u{200b}x"), "\u{200b}x");
    assert!(blank(" \u{2003}"));
    assert!(!blank(" x "));
    assert_eq!(trim_matches("//a/b/", '/'), "a/b");
    assert_eq!(string_of(trim_start_of(&chars_of("--a-"), '-')), "a-");
    assert_eq!(string_of(trim_end_of(&chars_of("-a--"), '-')), "-a");
}

#[test]
fn text_is_compared_with_and_without_case() {
    assert!(same_text("abc", "abc"));
    assert!(!same_text("abc", "abC"));
    assert!(same_chars(&['a'], &['a']));
    assert!(eq_ignore_ascii_case("AbC", "aBc"));
    assert!(!eq_ignore_ascii_case("é", "É"));
    assert_eq!(to_ascii_uppercase("aé1"), "Aé1");
    assert_eq!(to_ascii_lowercase("AÉ1"), "aÉ1");
    assert_eq!(concat3("a", "", "c"), "ac");
}

#[test]
fn text_is_searched() {
    let cs = chars_of("a/b\\c/d");
    assert_eq!(find_char(&cs, '/'), 1);
    assert_eq!(find_char(&cs, 'z'), cs.len());
    assert_eq!(find_either(&cs, '\\', 'b'), 2);
    assert_eq!(rfind_char(&cs, '/'), Some(5));
    assert_eq!(rfind_char(&cs, 'z'), None);
    assert!(starts_with_chars(&cs, &['a', '/']));
    assert!(ends_with_chars(&cs, &['/', 'd']));
    assert!(!ends_with_chars(&['d'], &['/', 'd']));
    assert!(contains_text(&owned(&["x", "y"]), "y"));
    assert!(!contains_text(&owned(&["x", "y"]), "z"));
}

#[test]
fn text_is_split() {
    assert_eq!(split_chars(&chars_of("a||b"), '|'), owned(&["a", "", "b"]));
    assert_eq!(split_chars(&[], '|'), owned(&[""]));
    assert_eq!(split_either(&chars_of("a/b\\c"), '/', '\\'), owned(&["a", "b", "c"]));
    let cs = chars_of("k=v=w");
    let (key, value) = split_once_chars(&cs, '=').expect("a separator");
    assert_eq!((string_of(key), string_of(value)), ("k".to_owned(), "v=w".to_owned()));
    assert!(split_once_chars(&cs, ';').is_none());
    assert_eq!(text_lines("a\r\nb\n\nc"), owned(&["a", "b", "", "c"]));
    assert_eq!(text_lines("a\n"), owned(&["a"]));
    assert!(text_lines("").is_empty());
}

#[test]
fn splitting_undoes_joining() {
    let parts = owned(&["x", "", "yz"]);
    let joined = join_texts(&parts, "|");
    assert_eq!(joined, "x||yz");
    assert_eq!(split_chars(&chars_of(&joined), '|'), parts);
    assert_eq!(join_texts(&parts, ", "), "x, , yz");
}

#[test]
fn numbers_are_written_and_read() {
    for n in [0, 7, -1, 1234567890, i64::MAX, i64::MIN] {
        let text = int_text(n);
        assert_eq!(text, format!("{n}"));
        assert_eq!(parse_i64_chars(&chars_of(&text)), Some(n));
    }
    assert_eq!(parse_i32_chars(&chars_of("+12")), Some(12));
    assert_eq!(parse_i32_chars(&chars_of("007")), Some(7));
    for bad in ["", "+", "-", "1x", " 1", "2147483648", "-2147483649"] {
        assert_eq!(parse_i32_chars(&chars_of(bad)), None, "{bad}");
    }
    assert_eq!(parse_i32_chars(&chars_of("-2147483648")), Some(i32::MIN));
    assert_eq!(parse_i64_chars(&chars_of("9223372036854775808")), None);
}

#[test]
fn identifiers_are_written_and_read() {
    let id = Guid::from_u128(0x0123456789abcdef_0fedcba987654321);
    assert_eq!(guid_to_db(id), "01234567-89AB-CDEF-0FED-CBA987654321");
    assert_eq!(write_guids(&[id]), owned(&["01234567-89ab-cdef-0fed-cba987654321"]));
    let spellings = owned(&[
        "01234567-89ab-cdef-0fed-cba987654321",
        "nothing",
        "0123456789ABCDEF0FEDCBA987654321",
    ]);
    assert_eq!(read_guids(&spellings), vec![id, id]);
    assert!(Guid::nil().is_nil());
    assert!(!id.is_nil());
}

#[test]
fn messages_are_json() {
    assert_eq!(
        envelope_text("Say \"hi\"", "id", "{ \"b\" : [1, 2.5, null] }"),
        r#"{"MessageType":"Say \"hi\"","MessageId":"id","Data":{"b":[1,2.5,null]}}"#
    );
    assert_eq!(
        envelope_text("Note", "id", "no json\n"),
        r#"{"MessageType":"Note","MessageId":"id","Data":"no json\n"}"#
    );
    assert_eq!(
        envelope_text("Note", "id", ""),
        r#"{"MessageType":"Note","MessageId":"id","Data":""}"#
    );
    assert_eq!(number_json(Some(-5)), "-5");
    assert_eq!(number_json(None), "null");
    assert_eq!(guid_json(Guid::from_u128(1)), "\"00000000-0000-0000-0000-000000000001\"");
}

#[test]
fn pages_are_cut_out() {
    let all = vec![1, 2, 3, 4];
    assert_eq!(take_page(all.clone(), Some(1), Some(2)), vec![2, 3]);
    assert_eq!(take_page(all.clone(), None, None), all);
    assert_eq!(take_page(all.clone(), Some(-3), Some(0)), all);
    assert_eq!(take_page(all.clone(), Some(9), Some(1)), Vec::<i32>::new());
    assert_eq!(record_count(4), 4);
    let page = page_of(all, Some(3), Some(5), false);
    assert_eq!(page.items, vec![4]);
    assert_eq!(page.start_index, Some(3));
    assert_eq!(page.total_record_count, None);
}

#[test]
fn tables_keep_one_entry_per_key() {
    let mut t: Table<String, i32> = Table::new();
    t.insert("a".to_owned(), 1);
    t.insert("b".to_owned(), 2);
    t.insert("a".to_owned(), 3);
    assert_eq!(t.entries.len(), 2);
    assert_eq!(t.get(&"a".to_owned()), Some(&3));
    assert_eq!(t.position(&"b".to_owned()), Some(0));
    assert_eq!(t.remove(&"a".to_owned()), Some(3));
    assert_eq!(t.remove(&"a".to_owned()), None);
    assert!(!t.contains(&"a".to_owned()));
    let mut groups: Table<i32, Vec<char>> = Table::new();
    groups.push_into(1, 'x');
    groups.push_into(2, 'y');
    groups.push_into(1, 'z');
    assert_eq!(groups.get(&1), Some(&vec!['x', 'z']));
    assert_eq!(groups.entries.len(), 2);
}

#[test]
fn texts_are_in_the_order_of_their_characters() {
    assert!(text_before("a", "b"));
    assert!(text_before("a", "aa"));
    assert!(text_before("", "a"));
    assert!(!text_before("a", "a"));
    assert!(text_before("Z", "a"));
    assert!(text_before("z", "é"));
}

#[test]
fn kinds_and_type_names_are_looked_up() {
    let names = ItemTypeNames {
        entries: vec![
            (BaseItemKind::Movie, "Movies.Movie".to_owned()),
            (BaseItemKind::Episode, "TV.Episode".to_owned()),
        ],
    };
    assert_eq!(names.stored_type_name(BaseItemKind::Episode), Some("TV.Episode".to_owned()));
    assert_eq!(names.stored_type_name(BaseItemKind::Year), None);
    assert_eq!(names.kind_from_type_name("Movies.Movie"), Some(BaseItemKind::Movie));
    assert_eq!(names.kind_from_type_name("movies.movie"), None);
    assert_eq!(media_type_name(MediaType::Photo), "Photo");
}

#[test]
fn the_clock_stands_between_the_ends_of_the_calendar() {
    let t = now();
    // The start of 2020.
    assert!(t.nanos > 1_577_836_800_000_000_000);
    assert!(t.nanos < LATEST_NANOS);
    assert_eq!(Timestamp::earliest().nanos, EARLIEST_NANOS);
    let min = chrono::DateTime::<chrono::Utc>::MIN_UTC;
    let max = chrono::DateTime::<chrono::Utc>::MAX_UTC;
    assert_eq!(EARLIEST_NANOS, i128::from(min.timestamp()) * 1_000_000_000);
    assert_eq!(
        LATEST_NANOS,
        i128::from(max.timestamp()) * 1_000_000_000 + i128::from(max.timestamp_subsec_nanos())
    );
}

#[test]
fn what_json_does_not_take_is_escaped() {
    let kind = "a\"b\\c\u{8}\t\n\u{c}\r\u{1}\u{1f}\u{7f}/\u{e9}";
    assert_eq!(
        envelope_text(kind, "id", "1"),
        "{\"MessageType\":\"a\\\"b\\\\c\\b\\t\\n\\f\\r\\u0001\\u001f\u{7f}/\u{e9}\",\
         \"MessageId\":\"id\",\"Data\":1}"
    );
}

#[test]
fn members_can_stand_in_the_order_of_their_names() {
    assert_eq!(
        sorted_envelope_text("Note", "id", "{\"b\": 2}"),
        "{\"Data\":{\"b\":2},\"MessageId\":\"id\",\"MessageType\":\"Note\"}"
    );
}
