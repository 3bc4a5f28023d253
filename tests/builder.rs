use jsonbuilder::{escape_json, Error, IntoJSON, JSONBuilder, State};

struct Float(f32);

impl IntoJSON for Float {
    fn into_json(&self, builder: &mut JSONBuilder) -> Result<(), Error> {
        builder.primitive(&format!("{}", self.0))
    }
}

struct Record {
    foo: i32,
    bar: String,
    baz: Vec<bool>,
    opt: Option<Float>,
}

impl IntoJSON for Record {
    fn into_json(&self, builder: &mut JSONBuilder) -> Result<(), Error> {
        builder.begin_object()?;
        builder.item("foo", self.foo)?;
        builder.item("bar", &self.bar)?;
        builder.item("baz", &self.baz)?;
        builder.item("opt", &self.opt)?;
        builder.end_object()
    }
}

fn compact(f: impl FnOnce(&mut JSONBuilder) -> Result<(), Error>) -> Result<String, Error> {
    let mut b = JSONBuilder::new();
    f(&mut b)?;
    b.end()?;
    Ok(b.into_output())
}

#[test]
fn empty_object_and_array() {
    let obj = compact(|b| {
        b.begin_object()?;
        b.end_object()
    });
    assert_eq!(obj.ok().unwrap(), "{}");
    let arr = compact(|b| {
        b.begin_array()?;
        b.end_array()
    });
    assert_eq!(arr.ok().unwrap(), "[]");
}

#[test]
fn empty_containers_pretty() {
    let v: Vec<i32> = vec![];
    assert_eq!(v.to_pretty_json(2, false).ok().unwrap(), "[]\n");
}

#[test]
fn key_inside_array_fails() {
    let mut b = JSONBuilder::new();
    b.begin_array().ok().unwrap();
    assert_eq!(b.key("k").err(), Some(Error::State(State::ArrayFirstElement)));
    b.value(1).ok().unwrap();
    assert_eq!(b.key("k").err(), Some(Error::State(State::ArrayElement)));
    assert_eq!(b.output(), "[1");
}

#[test]
fn key_after_key_fails() {
    let mut b = JSONBuilder::new();
    b.begin_object().ok().unwrap();
    b.key("a").ok().unwrap();
    assert_eq!(b.key("b").err(), Some(Error::State(State::ObjectValue)));
    assert_eq!(b.output(), "{\"a\":");
}

#[test]
fn key_at_top_level_fails() {
    let mut b = JSONBuilder::new();
    assert_eq!(b.key("a").err(), Some(Error::State(State::Begin)));
    assert_eq!(b.output(), "");
}

#[test]
fn value_where_key_expected_fails() {
    let mut b = JSONBuilder::new();
    b.begin_object().ok().unwrap();
    assert_eq!(b.value(1).err(), Some(Error::State(State::ObjectFirstKey)));
    assert_eq!(b.null().err(), Some(Error::State(State::ObjectFirstKey)));
    assert_eq!(b.begin_array().err(), Some(Error::State(State::ObjectFirstKey)));
    b.item("a", 1).ok().unwrap();
    assert_eq!(b.string("x").err(), Some(Error::State(State::ObjectKey)));
    assert_eq!(b.output(), "{\"a\":1");
}

#[test]
fn second_top_level_value_fails() {
    let mut b = JSONBuilder::new();
    b.value(true).ok().unwrap();
    assert_eq!(b.value(false).err(), Some(Error::State(State::End)));
    assert_eq!(b.output(), "true");
}

#[test]
fn mismatched_close_fails() {
    let mut b = JSONBuilder::new();
    b.begin_array().ok().unwrap();
    assert_eq!(b.end_object().err(), Some(Error::State(State::ArrayFirstElement)));
    b.begin_object().ok().unwrap();
    assert_eq!(b.end_array().err(), Some(Error::State(State::ObjectFirstKey)));
    b.key("k").ok().unwrap();
    assert_eq!(b.end_object().err(), Some(Error::State(State::ObjectValue)));
    assert_eq!(b.end_array().err(), Some(Error::State(State::ObjectValue)));
    assert_eq!(b.output(), "[{\"k\":");
}

#[test]
fn close_at_top_level_fails() {
    let mut b = JSONBuilder::new();
    assert_eq!(b.end_array().err(), Some(Error::State(State::Begin)));
    assert_eq!(b.end_object().err(), Some(Error::State(State::Begin)));
}

#[test]
fn end_too_early_fails() {
    let mut b = JSONBuilder::new();
    assert_eq!(b.end().err(), Some(Error::State(State::Begin)));
    b.begin_object().ok().unwrap();
    assert_eq!(b.end().err(), Some(Error::State(State::ObjectFirstKey)));
    assert_eq!(b.end().err(), Some(Error::State(State::ObjectFirstKey)));
}

#[test]
fn end_twice_fails() {
    let mut b = JSONBuilder::new();
    b.null().ok().unwrap();
    assert!(b.end().is_ok());
    assert_eq!(b.end().err(), Some(Error::State(State::End)));
    assert_eq!(b.output(), "null");
}

#[test]
fn end_pretty_adds_newline() {
    let mut b = JSONBuilder::new_pretty(4, false);
    b.value(7u8).ok().unwrap();
    b.end().ok().unwrap();
    assert_eq!(b.into_output(), "7\n");
}

fn escaped(s: &str) -> String {
    let mut out = String::new();
    escape_json(s, &mut out);
    out
}

#[test]
fn escape_specials() {
    assert_eq!(escaped("a\\b"), "a\\\\b");
    assert_eq!(escaped("say \"hi\""), "say \\\"hi\\\"");
    assert_eq!(escaped("l1\nl2\r"), "l1\\nl2\\r");
    assert_eq!(escaped("<script>"), "\\u003cscript\\u003e");
    assert_eq!(escaped("nul\0"), "nul\\u0000");
    assert_eq!(escaped("tab\tstays"), "tab\tstays");
    assert_eq!(escaped("äö€ 😀"), "äö€ 😀");
    assert_eq!(escaped(""), "");
}

#[test]
fn escape_appends() {
    let mut out = String::from("x=");
    escape_json("\"", &mut out);
    assert_eq!(out, "x=\\\"");
}

fn unescape(s: &str) -> String {
    let cs: Vec<char> = s.chars().collect();
    let mut out = String::new();
    let mut i = 0;
    while i < cs.len() {
        if cs[i] == '\\' {
            match cs[i + 1] {
                'n' => out.push('\n'),
                'r' => out.push('\r'),
                't' => out.push('\t'),
                'u' => {
                    let hex: String = cs[i + 2..i + 6].iter().collect();
                    out.push(char::from_u32(u32::from_str_radix(&hex, 16).unwrap()).unwrap());
                    i += 4;
                }
                c => out.push(c),
            }
            i += 2;
        } else {
            out.push(cs[i]);
            i += 1;
        }
    }
    out
}

#[test]
fn escape_round_trip() {
    for s in ["plain", "<a href=\"x\">\\</a>", "\0\n\r\"\\<>", "mixed ü <> \u{1}", ""] {
        assert_eq!(unescape(&escaped(s)), s);
    }
}

#[test]
fn string_values_are_quoted() {
    assert_eq!("a\"b".to_json().ok().unwrap(), "\"a\\\"b\"");
    assert_eq!(String::from("<>").to_json().ok().unwrap(), "\"\\u003c\\u003e\"");
    assert_eq!('x'.to_json().ok().unwrap(), "\"x\"");
    assert_eq!('\n'.to_json().ok().unwrap(), "\"\\n\"");
}

#[test]
fn indent_three_spaces_depth_two() {
    let mut b = JSONBuilder::new_pretty(3, false);
    b.begin_array().ok().unwrap();
    b.begin_array().ok().unwrap();
    b.value(1).ok().unwrap();
    b.end_array().ok().unwrap();
    b.end_array().ok().unwrap();
    b.end().ok().unwrap();
    assert_eq!(b.into_output(), "[\n   [\n      1\n   ]\n]\n");
}

#[test]
fn indent_deeper_than_block() {
    let depth = 50;
    let mut b = JSONBuilder::new_pretty(3, false);
    for _ in 0..depth {
        b.begin_array().ok().unwrap();
    }
    b.null().ok().unwrap();
    for _ in 0..depth {
        b.end_array().ok().unwrap();
    }
    let out = b.into_output();
    let lines: Vec<&str> = out.split('\n').collect();
    assert_eq!(lines[depth], format!("{}null", " ".repeat(depth * 3)));
    assert_eq!(lines[depth + 1], format!("{}]", " ".repeat((depth - 1) * 3)));
    for (i, line) in lines.iter().enumerate().take(depth) {
        assert_eq!(*line, format!("{}[", " ".repeat(i * 3)));
    }
}

#[test]
fn indent_wide_tabs() {
    let mut b = JSONBuilder::new_pretty(70, true);
    b.begin_array().ok().unwrap();
    b.value(true).ok().unwrap();
    b.end_array().ok().unwrap();
    assert_eq!(b.into_output(), format!("[\n{}true\n]", "\t".repeat(70)));
}

#[test]
fn record_compact() {
    let r = Record {
        foo: 354,
        bar: "bl bla".to_string(),
        baz: vec![true, false],
        opt: Some(Float(-1.3e-2)),
    };
    assert_eq!(
        r.to_json().ok().unwrap(),
        "{\"foo\":354,\"bar\":\"bl bla\",\"baz\":[true,false],\"opt\":-0.013}"
    );
}

#[test]
fn record_pretty_spaces() {
    let r = Record { foo: -1, bar: String::new(), baz: vec![], opt: None };
    assert_eq!(
        r.to_pretty_json(2, false).ok().unwrap(),
        "{\n  \"foo\": -1,\n  \"bar\": \"\",\n  \"baz\": [],\n  \"opt\": null\n}\n"
    );
}

#[test]
fn absent_optional_is_null() {
    let none: Option<i32> = None;
    assert_eq!(none.to_json().ok().unwrap(), "null");
    assert_eq!(Some(Some(5u16)).to_json().ok().unwrap(), "5");
}

#[test]
fn pretty_tabs_nested() {
    let mut b = JSONBuilder::new_pretty(1, true);
    b.begin_object().ok().unwrap();
    b.item("a", vec![1, 2]).ok().unwrap();
    b.end_object().ok().unwrap();
    b.end().ok().unwrap();
    assert_eq!(b.into_output(), "{\n\t\"a\": [\n\t\t1,\n\t\t2\n\t]\n}\n");
}

#[test]
fn integers_exact() {
    assert_eq!(0u8.to_json().ok().unwrap(), "0");
    assert_eq!(i8::MIN.to_json().ok().unwrap(), "-128");
    assert_eq!(u64::MAX.to_json().ok().unwrap(), "18446744073709551615");
    assert_eq!(i128::MIN.to_json().ok().unwrap(), "-170141183460469231731687303715884105728");
    assert_eq!(u128::MAX.to_json().ok().unwrap(), "340282366920938463463374607431768211455");
    assert_eq!((-40i32).to_json().ok().unwrap(), "-40");
    assert_eq!(1000usize.to_json().ok().unwrap(), "1000");
    assert_eq!((-7isize).to_json().ok().unwrap(), "-7");
    assert_eq!(65535u16.to_json().ok().unwrap(), "65535");
    assert_eq!((-32768i16).to_json().ok().unwrap(), "-32768");
    assert_eq!(4294967295u32.to_json().ok().unwrap(), "4294967295");
    assert_eq!(i64::MIN.to_json().ok().unwrap(), "-9223372036854775808");
}

#[test]
fn booleans_and_boxes() {
    assert_eq!(true.to_json().ok().unwrap(), "true");
    assert_eq!(Box::new(false).to_json().ok().unwrap(), "false");
    assert_eq!((&12).to_json().ok().unwrap(), "12");
}

#[test]
fn nested_vectors() {
    let v: Vec<Vec<i32>> = vec![vec![], vec![2], vec![3, 4]];
    assert_eq!(v.to_json().ok().unwrap(), "[[],[2],[3,4]]");
    assert_eq!(
        v.to_pretty_json(1, false).ok().unwrap(),
        "[\n [],\n [\n  2\n ],\n [\n  3,\n  4\n ]\n]\n"
    );
}

#[test]
fn mixed_document() {
    let mut b = JSONBuilder::new();
    b.begin_object().ok().unwrap();
    b.item("foo", "bar").ok().unwrap();
    b.key("bla \" \n").ok().unwrap();
    b.begin_array().ok().unwrap();
    b.value(true).ok().unwrap();
    b.null().ok().unwrap();
    b.primitive("12.3").ok().unwrap();
    b.value(Some("foo")).ok().unwrap();
    b.value('x').ok().unwrap();
    b.end_array().ok().unwrap();
    b.end_object().ok().unwrap();
    b.end().ok().unwrap();
    assert_eq!(
        b.output(),
        "{\"foo\":\"bar\",\"bla \\\" \\n\":[true,null,12.3,\"foo\",\"x\"]}"
    );
}

#[test]
fn slices_are_arrays() {
    let a = ["a", " "];
    let s: &[&str] = &a[..];
    assert_eq!(s.to_json().ok().unwrap(), "[\"a\",\" \"]");
    let mut b = JSONBuilder::new_pretty(2, false);
    b.begin_object().ok().unwrap();
    b.item("s", s).ok().unwrap();
    b.item("t", &a[..0]).ok().unwrap();
    b.end_object().ok().unwrap();
    b.end().ok().unwrap();
    assert_eq!(b.into_output(), "{\n  \"s\": [\n    \"a\",\n    \" \"\n  ],\n  \"t\": []\n}\n");
}
