use mom::decimal::{i64_text, parse_i64, parse_u64, parse_usize, u64_text, usize_text};
use mom::float::Float;
use mom::json::{Json, JsonMap};
use mom::memory::Scored;
use mom::order::{best, is_below, rank};
use mom::query::{parse_position, Query};
use mom::text::{contains, find, is_blank, join, split, take_chars, trim};

fn number(x: f32) -> Float {
    Float(x.to_bits())
}

#[test]
fn numbers_are_compared_by_value() {
    let values =
        [f32::NEG_INFINITY, -2.5, -1e-40, -0.0, 0.0, 1e-40, 0.1, 0.7, 1.0, 1.5, f32::INFINITY];
    for a in values {
        for b in values {
            assert_eq!(number(a).less(number(b)), a < b, "{a} < {b}");
            assert_eq!(number(a).less_or_equal(number(b)), a <= b, "{a} <= {b}");
            let max = f32::from_bits(number(a).max(number(b)).0);
            assert_eq!(max, a.max(b));
        }
        assert_eq!(f32::from_bits(number(a).clamp_unit().0), a.clamp(0.0, 1.0));
        assert_eq!(number(a).within_unit(), (0.0..=1.0).contains(&a));
    }
    let nan = number(f32::NAN);
    assert!(nan.nan());
    assert!(!nan.less(number(1.0)) && !number(1.0).less(nan) && !nan.less_or_equal(nan));
    assert_eq!(nan.max(number(0.7)), number(0.7));
    assert!(!nan.within_unit());
}

#[test]
fn numbers_are_written_and_read_in_decimal() {
    for n in [0u64, 7, 10, 999, u64::MAX] {
        assert_eq!(u64_text(n), n.to_string());
        assert_eq!(parse_u64(&u64_text(n)), Some(n));
    }
    for n in [0i64, -1, 42, i64::MIN, i64::MAX] {
        assert_eq!(i64_text(n), n.to_string());
        assert_eq!(parse_i64(&i64_text(n)), Some(n));
    }
    assert_eq!(usize_text(1000), "1000");
    for bad in ["", "+", "-", "1 ", " 1", "1a", "18446744073709551616", "-1"] {
        assert_eq!(parse_u64(bad), bad.parse::<u64>().ok(), "{bad:?}");
        assert_eq!(parse_usize(bad), bad.parse::<usize>().ok(), "{bad:?}");
        assert_eq!(parse_i64(bad), bad.parse::<i64>().ok(), "{bad:?}");
    }
    assert_eq!(parse_u64("+007"), Some(7));
    assert_eq!(parse_i64("-007"), Some(-7));
}

#[test]
fn texts_are_cut_and_searched() {
    assert_eq!(trim(" \t a b\u{3000}\n"), "a b");
    assert_eq!(trim(" \u{a0} "), "");
    assert!(is_blank(" \u{2003}"));
    assert!(!is_blank("."));
    assert_eq!(split("a,,b", ','), vec!["a", "", "b"]);
    assert_eq!(split("", ','), vec![""]);
    assert_eq!(join(&vec!["a".to_string(), "b".to_string()], ", "), "a, b");
    assert_eq!(find("añbñ", "ñ"), Some(1));
    assert_eq!(find("abc", "abcd"), None);
    assert!(contains("abc", ""));
    assert_eq!(take_chars("añb", 2), "añ");
}

#[test]
fn cursors_read_back() {
    for (at, id) in [(0, "m1"), (-5, "with|bar"), (i64::MAX, ""), (99, "ümlaut:x")] {
        let cursor = Query::encode_cursor(at, id);
        assert_ne!(cursor, id);
        assert_eq!(Query::decode_cursor(&cursor), Some((at, id.to_string())));
    }
    assert_eq!(Query::decode_cursor("not base64!"), None);
    assert_eq!(Query::decode_cursor(""), None);
    assert_eq!(parse_position("no number"), None);
}

#[test]
fn texts_are_ordered_as_strings_are() {
    let words = ["b", "a", "", "ab", "ä", "B", "aa"];
    for a in words {
        for b in words {
            assert_eq!(is_below(a, b), a < b);
        }
    }
}

fn hits(scores: Vec<(f32, &str)>) -> Vec<Scored<String>> {
    scores
        .into_iter()
        .map(|(score, item)| Scored { score: number(score), item: item.to_string() })
        .collect()
}

fn names(hits: &Vec<Scored<String>>) -> Vec<&str> {
    hits.iter().map(|h| h.item.as_str()).collect()
}

#[test]
fn hits_are_ranked_by_score_and_ties_keep_their_order() {
    let all = vec![(0.2, "a"), (0.9, "b"), (0.2, "c"), (-0.0, "d"), (0.0, "e"), (0.9, "f")];
    assert_eq!(names(&rank(hits(all.clone()))), vec!["b", "f", "a", "c", "d", "e"]);
    assert_eq!(names(&best(hits(all.clone()), 3)), vec!["b", "f", "a"]);
    assert_eq!(best(hits(all), 0).len(), 0);
}

#[test]
fn objects_hold_each_key_once() {
    let mut map = JsonMap::new();
    map.insert("k".to_string(), Json::PosInt(1));
    map.insert("l".to_string(), Json::PosInt(2));
    map.insert("k".to_string(), Json::PosInt(3));
    assert_eq!(map.len(), 2);
    assert_eq!(map.get("k").and_then(|v| v.as_u64()), Some(3));
    assert!(map.contains_key("l"));
    assert!(!map.contains_key("m"));
    let mut keys: Vec<String> = (0..map.len()).map(|i| map.entry(i).0.to_string()).collect();
    keys.sort();
    assert_eq!(keys, vec!["k", "l"]);
    assert_eq!(Json::from_i64(-4).as_i64(), Some(-4));
    assert_eq!(Json::from_i64(4).as_u64(), Some(4));
    assert_eq!(Json::PosInt(u64::MAX).as_i64(), None);
    assert_eq!(Json::text("t").as_text(), Some("t"));
    assert!(Json::Null.as_object().is_none());
}
