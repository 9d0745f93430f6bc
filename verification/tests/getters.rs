use pathfinder::node::Mapping;
use pathfinder::{Date, FieldError, Node, PathFinder, YPath, YPaths};

fn text(s: &str) -> Node {
    Node::String(s.to_string())
}

fn hash(entries: Vec<(&str, Node)>) -> Node {
    let mut hash = Mapping::new();
    for (key, value) in entries {
        hash.insert(key.to_string(), value);
    }
    Node::Hash(hash)
}

fn invalid<T>(message: &str) -> Result<T, FieldError> {
    Err(FieldError::Invalid(message.to_string()))
}

fn sample() -> Node {
    hash(vec![
        ("name", text("Ada")),
        ("age", Node::Integer(36)),
        ("ratio", Node::Float("2.5".to_string())),
        ("active", Node::Boolean(true)),
        ("newsletter", text("Yes")),
        ("nothing", Node::Null),
        ("broken", Node::BadValue),
        ("born", text("10.12.1815")),
        ("tags", Node::Array(vec![text("a"), text("b"), text("c")])),
        ("address", hash(vec![("city", text("London")), ("zip", Node::Null)])),
    ])
}

#[test]
fn first_alternative_wins() {
    let doc = hash(vec![("a", text("first")), ("b", text("second"))]);
    assert_eq!(doc.get_str("a|b"), Ok("first"));
    assert_eq!(doc.get_str("a|b"), doc.get_str("a"));
    assert_eq!(doc.get_str("b|a"), Ok("second"));
}

#[test]
fn later_alternative_is_the_fallback() {
    let doc = hash(vec![("a", Node::Null), ("b", text("second"))]);
    assert_eq!(doc.get_str("a|b"), Ok("second"));
    assert_eq!(doc.get_str("missing|b"), Ok("second"));
    assert_eq!(doc.get_str("a|b"), doc.get_str("b"));
    assert_eq!(doc.get_str("missing|a|b"), Ok("second"));
    assert_eq!(doc.get_str("missing|a"), Err(FieldError::Missing));
}

#[test]
fn first_usable_alternative_decides_even_if_invalid() {
    let doc = hash(vec![("a", Node::Integer(1)), ("b", text("second"))]);
    assert_eq!(doc.get_str("a|b"), invalid("not a string (Integer(1))"));
}

#[test]
fn null_and_absent_are_both_missing() {
    let doc = sample();
    assert_eq!(doc.get_str("nothing"), Err(FieldError::Missing));
    assert_eq!(doc.get_str("broken"), Err(FieldError::Missing));
    assert_eq!(doc.get_str("absent"), Err(FieldError::Missing));
    assert_eq!(doc.get_int("nothing"), Err(FieldError::Missing));
    assert_eq!(doc.get_int("absent"), Err(FieldError::Missing));
    assert_eq!(doc.get_bool("nothing"), Err(FieldError::Missing));
    assert_eq!(doc.get_bool("absent"), Err(FieldError::Missing));
    assert_eq!(doc.get_hash("nothing"), Err(FieldError::Missing));
    assert_eq!(doc.get_vec("absent"), Err(FieldError::Missing));
    assert_eq!(doc.get_str("address.zip"), Err(FieldError::Missing));
    assert_eq!(doc.get_str("address.street"), Err(FieldError::Missing));
}

#[test]
fn array_segment_is_an_index() {
    let doc = sample();
    assert_eq!(doc.get_str("tags.2"), Ok("c"));
    assert_eq!(doc.get_str("tags/0"), Ok("a"));
    assert_eq!(doc.get_str("tags.x"), Err(FieldError::Missing));
    assert_eq!(doc.get_str("tags.3"), Err(FieldError::Missing));
    assert_eq!(doc.get_str("tags.-1"), Err(FieldError::Missing));
    assert_eq!(doc.get_str("tags."), Err(FieldError::Missing));
    let root = Node::Array(vec![text("zero"), text("one"), text("two")]);
    assert_eq!(root.get_str("2"), Ok("two"));
    assert_eq!(root.get_str("x"), Err(FieldError::Missing));
}

#[test]
fn path_longer_than_the_data_is_missing() {
    let doc = sample();
    assert_eq!(doc.get_str("name.first"), Err(FieldError::Missing));
    assert_eq!(doc.get_int("age.0"), Err(FieldError::Missing));
}

#[test]
fn wrong_type_is_invalid_not_missing() {
    let doc = sample();
    assert_eq!(doc.get_int("name"), invalid("not an integer (String(\"Ada\"))"));
    assert_eq!(doc.get_str("age"), invalid("not a string (Integer(36))"));
    assert_eq!(doc.get_string("active"), invalid("not a string (Boolean(true))"));
    assert_eq!(doc.get_bool_strict("newsletter"), invalid("not a boolean (String(\"Yes\"))"));
    assert_eq!(doc.get_bool("age"), invalid("not a boolean (Integer(36))"));
    assert_eq!(doc.get_int("ratio"), invalid("not an integer (Float(\"2.5\"))"));
    assert_eq!(
        doc.get_hash("tags"),
        invalid("not a hash (Array([String(\"a\"), String(\"b\"), String(\"c\")]))")
    );
    assert_eq!(doc.get_vec("name"), invalid("not a vector (String(\"Ada\"))"));
    assert_eq!(doc.get_dmy("age"), invalid("not a date (Integer(36))"));
}

#[test]
fn typed_getters_give_the_value() {
    let doc = sample();
    assert_eq!(doc.get_str("name"), Ok("Ada"));
    assert_eq!(doc.get_string("name"), Ok("Ada".to_string()));
    assert_eq!(doc.get_int("age"), Ok(36));
    assert_eq!(doc.get_bool_strict("active"), Ok(true));
    assert_eq!(doc.get_str("address/city"), Ok("London"));
    assert_eq!(doc.get_vec("tags"), Ok(&vec![text("a"), text("b"), text("c")]));
    let address = doc.get_hash("address").unwrap();
    assert_eq!(address.get("city"), Some(&text("London")));
    assert_eq!(address.get("zip"), Some(&Node::Null));
}

#[test]
fn lenient_boolean_takes_strings() {
    let doc = hash(vec![
        ("native", Node::Boolean(false)),
        ("yes", text("Yes")),
        ("shout", text("YES")),
        ("lower", text("yes")),
        ("no", text("no")),
        ("true", text("true")),
        ("empty", text("")),
        ("other", text("maybe")),
    ]);
    assert_eq!(doc.get_bool("native"), Ok(false));
    assert_eq!(doc.get_bool("yes"), Ok(true));
    assert_eq!(doc.get_bool("shout"), Ok(true));
    assert_eq!(doc.get_bool("lower"), Ok(true));
    assert_eq!(doc.get_bool("no"), Ok(false));
    assert_eq!(doc.get_bool("true"), Ok(false));
    assert_eq!(doc.get_bool("empty"), Ok(false));
    assert_eq!(doc.get_bool("other"), Ok(false));
}

#[test]
fn integer_widens_to_float() {
    let doc = sample();
    let as_float = |node: &Node| match node {
        Node::Float(text) => text.parse::<f64>().ok(),
        Node::Integer(number) => Some(*number as f64),
        _ => None,
    };
    assert_eq!(doc.field("age", "not a float", as_float), Ok(36.0));
    assert_eq!(doc.field("ratio", "not a float", as_float), Ok(2.5));
    assert_eq!(
        doc.field("name", "not a float", as_float),
        invalid("not a float (String(\"Ada\"))")
    );
    assert_eq!(doc.field("absent", "not a float", as_float), Err(FieldError::Missing));
}

#[test]
fn field_hands_the_found_node_to_the_parser() {
    let doc = sample();
    let length = doc.field("tags", "not countable", |node: &Node| node.as_vec().map(|v| v.len()));
    assert_eq!(length, Ok(3));
    let never: Result<u8, FieldError> = doc.field("absent|nothing", "unused", |_| Some(1));
    assert_eq!(never, Err(FieldError::Missing));
    let refused: Result<u8, FieldError> = doc.field("missing|age", "refused", |_| None);
    assert_eq!(refused, invalid("refused (Integer(36))"));
}

#[test]
fn date_is_day_month_year() {
    let doc = hash(vec![
        ("offer", text("07.11.2019")),
        ("born", text("10.12.1815")),
        ("leap", text("29.02.2020")),
        ("no_leap", text("29.02.2019")),
        ("iso", text("2019-11-07")),
        ("month_13", text("01.13.2019")),
        ("words", text("tomorrow")),
    ]);
    assert_eq!(doc.get_dmy("offer"), Ok(Date { year: 2019, month: 11, day: 7 }));
    assert_eq!(doc.get_dmy("born"), Ok(Date { year: 1815, month: 12, day: 10 }));
    assert_eq!(doc.get_dmy("leap"), Ok(Date { year: 2020, month: 2, day: 29 }));
    assert_eq!(doc.get_dmy("no_leap"), invalid("not a date (String(\"29.02.2019\"))"));
    assert_eq!(doc.get_dmy("iso"), invalid("not a date (String(\"2019-11-07\"))"));
    assert_eq!(doc.get_dmy("month_13"), invalid("not a date (String(\"01.13.2019\"))"));
    assert_eq!(doc.get_dmy("words"), invalid("not a date (String(\"tomorrow\"))"));
    assert_eq!(doc.get_dmy("absent"), Err(FieldError::Missing));
}

#[test]
fn get_takes_parsed_paths() {
    let doc = sample();
    let paths = YPaths::parse("nothing|address.city|name").unwrap();
    assert_eq!(doc.get(&paths), Some(&text("London")));
    let none = YPaths::parse("nothing|broken|absent").unwrap();
    assert_eq!(doc.get(&none), None);
}

#[test]
fn get_direct_hides_null_and_bad_value() {
    let doc = sample();
    let root = doc.data();
    assert_eq!(doc.get_direct(root, &YPath::parse("name").unwrap()), Some(&text("Ada")));
    assert_eq!(doc.get_direct(root, &YPath::parse("nothing").unwrap()), None);
    assert_eq!(doc.get_direct(root, &YPath::parse("broken").unwrap()), None);
    assert_eq!(doc.get_direct(root, &YPath::parse("absent").unwrap()), None);
}

#[test]
fn get_path_shows_null_and_bad_value() {
    let doc = sample();
    let root = doc.data();
    assert_eq!(doc.get_path(root, &["nothing"]), Some(&Node::Null));
    assert_eq!(doc.get_path(root, &["broken"]), Some(&Node::BadValue));
    assert_eq!(doc.get_path(root, &["address", "city"]), Some(&text("London")));
    assert_eq!(doc.get_path(root, &["absent"]), None);
    assert_eq!(doc.get_path(root, &[]), None);
}

#[test]
fn keys_match_exactly() {
    let doc = hash(vec![("Name", text("upper")), ("", text("empty key"))]);
    assert_eq!(doc.get_str("name"), Err(FieldError::Missing));
    assert_eq!(doc.get_str("Name"), Ok("upper"));
    assert_eq!(doc.get_str(""), Ok("empty key"));
}

#[test]
fn node_is_its_own_document() {
    let doc = sample();
    assert_eq!(doc.data(), &doc);
}
