use recuvora::json::{Json, Order, Real};
use recuvora::lines;
use recuvora::paths::{
    has_current, has_parent, in_control_directory, lexically_allowed, names_begin, path_before, sort_unique, under, under_one,
    windows_component_key, DosFault, Location, Part, Volume,
};
use recuvora::table::Table;
use recuvora::text;
use recuvora::time::Span;

fn convert(value: &serde_json::Value) -> Json {
    match value {
        serde_json::Value::Null => Json::Null,
        serde_json::Value::Bool(b) => Json::Bool(*b),
        serde_json::Value::Number(n) => {
            if let Some(u) = n.as_u64() {
                Json::Unsigned(u)
            } else if let Some(i) = n.as_i64() {
                Json::Negative(i)
            } else {
                let f = n.as_f64().unwrap();
                let bits = f.to_bits();
                let raw = ((bits >> 52) & 0x7ff) as i16;
                let fraction = (bits & 0xf_ffff_ffff_ffff) as i64;
                let (m, e) = if raw == 0 { (fraction, -1074) } else { (fraction | (1 << 52), raw - 1075) };
                Json::Real(Real { text: n.to_string(), mantissa: if f < 0.0 { -m } else { m }, exponent: e })
            }
        }
        serde_json::Value::String(s) => Json::Text(s.clone()),
        serde_json::Value::Array(list) => Json::Array(list.iter().map(convert).collect()),
        serde_json::Value::Object(map) => Json::Object(map.iter().map(|(k, v)| (k.clone(), convert(v))).collect()),
    }
}

fn json(text: &str) -> Json {
    convert(&serde_json::from_str(text).unwrap())
}

#[test]
fn texts_are_measured_and_cut() {
    assert_eq!(text::utf8_len("aé漢"), 6);
    assert_eq!(text::clip("aé漢字", 3), "aé漢");
    assert_eq!(text::clip("ab", 3), "ab");
    assert_eq!(text::trim("  a b \t"), "a b");
    assert_eq!(text::split("a/b//c", '/'), vec!["a", "b", "", "c"]);
    assert_eq!(text::split("", '/'), vec![""]);
    assert!(text::blank(" \t\n"));
    assert!(text::blank(""));
    assert!(!text::blank(" x "));
    assert_eq!(text::ahead("left=>right", "=>"), Some("left".to_string()));
    assert_eq!(text::ahead("nothing", "=>"), None);
    assert_eq!(text::strip("node://x", "node://"), Some("x".to_string()));
    assert_eq!(text::strip("nod", "node://"), None);
    assert!(text::holds("abcabd", "abd"));
    assert!(!text::holds("ab", "abc"));
    assert!(text::holds("anything", ""));
}

#[test]
fn texts_are_ordered_as_scalars() {
    assert!(text::before("a", "b"));
    assert!(text::before("a", "aa"));
    assert!(!text::before("b", "a"));
    assert!(!text::before("a", "a"));
    assert!(text::before("z", "é"));
    let mut list = vec!["é", "b", "", "aa", "a"];
    list.sort();
    for pair in list.windows(2) {
        assert!(text::before(pair[0], pair[1]));
    }
}

#[test]
fn numbers_are_written() {
    assert_eq!(text::decimal_text(0), "0");
    assert_eq!(text::decimal_text(u64::MAX), "18446744073709551615");
    assert_eq!(text::hex_text(255, 8), "000000ff");
    assert_eq!(text::hex_text(0, 2), "00");
    assert_eq!(text::lower("AbÉ1"), "abÉ1");
    assert_eq!(text::upper("abé1"), "ABé1");
}

#[test]
fn names_are_checked() {
    assert!(text::name("a.b_c-1", 128));
    assert!(!text::name("", 128));
    assert!(!text::name("a b", 128));
    assert!(!text::name("abc", 2));
    assert!(text::controlled("a\u{7}"));
    assert!(!text::controlled("plain"));
}

#[test]
fn values_render_as_compact_documents() {
    let text = "{\"a\":[1,-2,true,null,\"x\\n\\\"\"],\"b\":{\"c\":1.5}}";
    let value = json(text);
    assert_eq!(value.render(), text);
    assert_eq!(value.size(), text.len());
    assert_eq!(json("\"\\u0001é\"").render(), "\"\\u0001é\"");
    // The quote, the backslash and control characters are escaped, all else stands as it is.
    let text = "\"\\/\u{8}\t\n\u{c}\r\u{1}\u{1f}\u{7f}é";
    let quoted = "\"\\\"\\\\/\\b\\t\\n\\f\\r\\u0001\\u001f\u{7f}é\"";
    assert_eq!(Json::Text(text.into()).render(), quoted);
    assert_eq!(Json::Text(text.into()).size(), 2 + 2 * 7 + 1 + 2 * 6 + 1 + 2);
    assert_eq!(json("{\"a\\n\":1}").render(), "{\"a\\n\":1}");
}

#[test]
fn setting_a_field_leaves_the_others() {
    let mut value = json("{\"a\":1,\"c\":3}");
    value.set("b", Json::Unsigned(2));
    assert_eq!(value.render(), "{\"a\":1,\"b\":2,\"c\":3}");
    value.set("a", Json::Null);
    assert_eq!(value.render(), "{\"a\":null,\"b\":2,\"c\":3}");
    assert!(value.get("c").unwrap().equals(&json("3")));
    assert!(value.get("d").is_none());
    let mut other = json("7");
    other.set("a", Json::Bool(true));
    assert_eq!(other.render(), "{\"a\":true}");
}

#[test]
fn pointers_resolve() {
    let value = json("{\"a\":{\"b/c\":[10,20]},\"~\":1,\"\":2}");
    assert_eq!(value.pointer("/a/b~1c/1").unwrap().render(), "20");
    assert_eq!(value.pointer("/~0").unwrap().render(), "1");
    assert_eq!(value.pointer("/").unwrap().render(), "2");
    assert_eq!(value.pointer("").unwrap().render(), value.render());
    assert!(value.pointer("a").is_none());
    assert!(value.pointer("/a/b~1c/01").is_none());
    assert!(value.pointer("/a/b~1c/2").is_none());
    for pointer in ["/a/b~1c/1", "/~0", "/", "", "a", "/a/b~1c/01", "/a/b~1c/2", "/a/b~1c/+1"] {
        let raw: serde_json::Value = serde_json::from_str(&value.render()).unwrap();
        assert_eq!(
            raw.pointer(pointer).map(|v| v.to_string()),
            value.pointer(pointer).map(|v| v.render()),
            "{pointer}"
        );
    }
}

#[test]
fn numbers_compare_by_value() {
    assert_eq!(json("1").against(&json("1.0")), Some(Order::Equal));
    assert_eq!(json("-1").against(&json("0.5")), Some(Order::Less));
    assert_eq!(json("2").against(&json("0.5")), Some(Order::Greater));
    assert_eq!(json("2").against(&json("true")), None);
    assert!(json("9007199254740992").exact());
    assert!(!json("9007199254740993").exact());
    assert!(!json("1e300").exact());
    assert!(json("[1,{\"a\":1.5}]").equals(&json("[1,{\"a\":1.5}]")));
    assert!(!json("1").equals(&json("1.0")));
    assert!(!json("[1]").equals(&json("[1,2]")));
    assert!(json("[[[]]]").within_depth(3));
    assert!(!json("[[[1]]]").within_depth(2));
}

#[test]
fn lines_end_at_newlines() {
    let bytes = b"ab\ncd\nef".to_vec();
    assert_eq!(lines::complete_len(&bytes), 6);
    assert_eq!(lines::split(&bytes, 6), vec![(0, 3), (3, 6)]);
    assert!(lines::incomplete(&bytes));
    assert!(!lines::incomplete(&b"ab\n".to_vec()));
}

#[test]
fn spans_are_exact() {
    assert_eq!(Span::from_millis(1500), Span { secs: 1, nanos: 500000000 });
    assert_eq!(Span::from_secs(7), Span { secs: 7, nanos: 0 });
    assert!(Span::from_secs(0).is_zero());
    assert!(Span { secs: 3, nanos: 1 }.exceeds(3));
    assert!(!Span { secs: 3, nanos: 0 }.exceeds(3));
    assert_eq!(Span { secs: u64::MAX, nanos: 0 }.millis_fit(), None);
    assert_eq!(Span { secs: 2, nanos: 1999999 }.millis_fit(), Some(2001));
}

#[test]
fn tables_keep_their_keys_in_order() {
    let mut table: Table<u64> = Table::new();
    table.insert("b".into(), 2);
    table.insert("a".into(), 1);
    table.insert("c".into(), 3);
    table.insert("b".into(), 20);
    assert_eq!(table.len(), 3);
    assert_eq!((table.key(0).as_str(), *table.value(0)), ("a", 1));
    assert_eq!((table.key(1).as_str(), *table.value(1)), ("b", 20));
    table.remove("a");
    table.remove("nothing");
    assert!(!table.has("a"));
    assert_eq!(table.get("c"), Some(&3));
}

fn disk(drive: char, names: &[&str]) -> Vec<Part> {
    let mut parts = vec![Part::Volume { verbatim: false, volume: Volume::Disk(drive) }, Part::Root];
    for name in names {
        parts.push(Part::Name(name.to_string()));
    }
    parts
}

fn place(drive: char, names: &[&str]) -> Location {
    Location { text: format!("{drive}:\\{}", names.join("\\")), parts: disk(drive, names) }
}

#[test]
fn paths_lie_under_their_roots() {
    assert!(under(&disk('C', &["a", "b"]), &disk('C', &["a"])));
    assert!(under(&disk('C', &["a"]), &disk('C', &["a"])));
    assert!(!under(&disk('C', &["ab"]), &disk('C', &["a"])));
    // What lies under a path that lies under a root lies under the root.
    let (root, middle, leaf) = (disk('C', &["a"]), disk('C', &["a", "b"]), disk('C', &["a", "b", "c"]));
    assert!(under(&middle, &root) && under(&leaf, &middle) && under(&leaf, &root));
    assert!(under_one(&leaf, &vec![place('D', &[]), place('C', &["a"])]));
    assert!(!under_one(&leaf, &vec![]));
}

#[test]
fn local_paths_have_one_form() {
    assert_eq!(recuvora::paths::dos_path(&disk('C', &["Work", "X"])).unwrap(), vec!["c:", "work", "x"]);
    assert_eq!(recuvora::paths::dos_path(&vec![Part::Root]), Err(DosFault::NotAbsolute));
    let share = vec![Part::Volume { verbatim: false, volume: Volume::Share("s".into(), "d".into()) }, Part::Root];
    assert_eq!(recuvora::paths::dos_path(&share), Err(DosFault::NotLocal));
    let bare = vec![Part::Volume { verbatim: false, volume: Volume::Disk('C') }, Part::Name("x".into())];
    assert_eq!(recuvora::paths::dos_path(&bare), Err(DosFault::NotRooted));
    let mut alias = disk('C', &["x"]);
    alias.push(Part::Parent);
    assert_eq!(recuvora::paths::dos_path(&alias), Err(DosFault::Alias));
    assert!(has_parent(&alias) && !has_current(&alias));
    assert!(has_current(&vec![Part::Current]));
    assert!(in_control_directory(&disk('C', &["x", ".git", "y"])));
    assert!(!in_control_directory(&disk('C', &["x", "y"])));
    assert!(names_begin(&vec!["a".into(), "b".into()], &vec!["a".into()]));
    assert!(windows_component_key(&disk('C', &["É"])).unwrap().contains(&"é".to_string()));
    assert!(lexically_allowed(&disk('c', &["WORK", "x"]), &vec![place('C', &["work"])]));
    assert!(!lexically_allowed(&disk('c', &["work2"]), &vec![place('C', &["work"])]));
}

#[test]
fn places_are_listed_once_in_order() {
    let list = vec![place('C', &["b"]), place('C', &["a"]), place('C', &["b"])];
    let sorted = sort_unique(&list);
    assert_eq!(sorted.iter().map(|l| l.text.as_str()).collect::<Vec<_>>(), vec!["C:\\a", "C:\\b"]);
    assert!(path_before(&disk('C', &["a"]), &disk('C', &["a", "b"])));
    // Of equal paths the first stays, and ordering again changes nothing.
    let mut renamed = place('C', &["b"]);
    renamed.text = "another".into();
    let sorted = sort_unique(&vec![renamed, place('C', &["c"]), place('C', &["b"]), place('C', &["a"])]);
    let shown = |list: &Vec<Location>| list.iter().map(|l| l.text.clone()).collect::<Vec<_>>();
    assert_eq!(shown(&sorted), vec!["C:\\a", "another", "C:\\c"]);
    assert_eq!(shown(&sort_unique(&sorted)), shown(&sorted));
}

#[test]
fn values_of_other_kinds_are_told_apart() {
    let real = Json::Real(Real { text: "0.5".into(), mantissa: 1, exponent: -1 });
    assert_eq!(real.against(&json("0.5")), Some(Order::Equal));
    assert_eq!(real.render(), "0.5");
}
