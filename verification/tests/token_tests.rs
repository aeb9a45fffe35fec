use obj_parser::coord::is_coord_token;
use obj_parser::directive::AttributeType;
use obj_parser::face::Face;
use obj_parser::numbers::{parse_i32_str, parse_u32_str};
use obj_parser::text::{split_char, str_eq, strip_prefix_chars};

#[test]
fn parse_u32_accepts_plain_and_signed_plus() {
    assert_eq!(parse_u32_str("0"), Some(0));
    assert_eq!(parse_u32_str("12"), Some(12));
    assert_eq!(parse_u32_str("+12"), Some(12));
    assert_eq!(parse_u32_str("007"), Some(7));
    assert_eq!(parse_u32_str("4294967295"), Some(u32::MAX));
}

#[test]
fn parse_u32_rejects_junk_and_overflow() {
    assert_eq!(parse_u32_str(""), None);
    assert_eq!(parse_u32_str("+"), None);
    assert_eq!(parse_u32_str("-1"), None);
    assert_eq!(parse_u32_str(" 1"), None);
    assert_eq!(parse_u32_str("12a"), None);
    assert_eq!(parse_u32_str("4294967296"), None);
    assert_eq!(parse_u32_str("99999999999999999999"), None);
}

#[test]
fn parse_u32_agrees_with_std() {
    for t in ["0", "12", "+12", "007", "4294967295", "4294967296", "", "+", "-1", "1 ", "0x10"] {
        assert_eq!(parse_u32_str(t), t.parse::<u32>().ok(), "token {:?}", t);
    }
}

#[test]
fn parse_i32_handles_signs_and_bounds() {
    assert_eq!(parse_i32_str("-3"), Some(-3));
    assert_eq!(parse_i32_str("+3"), Some(3));
    assert_eq!(parse_i32_str("0"), Some(0));
    assert_eq!(parse_i32_str("-0"), Some(0));
    assert_eq!(parse_i32_str("2147483647"), Some(i32::MAX));
    assert_eq!(parse_i32_str("2147483648"), None);
    assert_eq!(parse_i32_str("-2147483648"), Some(i32::MIN));
    assert_eq!(parse_i32_str("-2147483649"), None);
    assert_eq!(parse_i32_str("--1"), None);
    assert_eq!(parse_i32_str("-+1"), None);
    assert_eq!(parse_i32_str("off"), None);
}

#[test]
fn parse_i32_agrees_with_std() {
    for t in ["-3", "+3", "0", "-0", "2147483648", "-2147483648", "--1", "1.5", ""] {
        assert_eq!(parse_i32_str(t), t.parse::<i32>().ok(), "token {:?}", t);
    }
}

#[test]
fn coord_grammar_accepts_numbers() {
    for t in ["1", "1.0", "1.", ".5", "-2.5", "+7", "1e5", "1E5", "1e-3", "-1.5e+10", "007", "0.0"]
    {
        assert!(is_coord_token(t), "token {:?}", t);
    }
}

#[test]
fn coord_grammar_accepts_special_words() {
    for t in ["inf", "INF", "-inf", "+Inf", "infinity", "Infinity", "nan", "NaN", "-NAN"] {
        assert!(is_coord_token(t), "token {:?}", t);
    }
}

#[test]
fn coord_grammar_rejects_junk() {
    for t in ["", ".", "+", "-", "x", "1x", "1.0.0", "1,0", "1e", "1e+", "1e2.5", "na", "infin",
        "--1", "1 ", " 1", "in", "nans"]
    {
        assert!(!is_coord_token(t), "token {:?}", t);
    }
}

#[test]
fn coord_grammar_agrees_with_std() {
    let tokens = ["1", "1.0", "1.", ".5", "-2.5", "1e5", "1e", "1e+", "1e+5", "inf", "Infinity",
        "nan", "NAN", "", ".", "+", "-", "x", "1.0.0", "3.14159", "-0.0", "1E-45", "1e999",
        "0x10", "1_000", "  2", "2  ", "+.5", "-.", "e5", ".e5", "5.e2", "nAn", "iNfInItY"];
    for t in tokens {
        assert_eq!(is_coord_token(t), t.parse::<f32>().is_ok(), "token {:?}", t);
    }
}

#[test]
fn split_keeps_empty_fields() {
    assert_eq!(split_char("a b", ' '), vec!["a".to_string(), "b".to_string()]);
    assert_eq!(split_char("", ' '), vec!["".to_string()]);
    assert_eq!(split_char("a  b", ' '), vec!["a".to_string(), "".to_string(), "b".to_string()]);
    assert_eq!(split_char(" a ", ' '), vec!["".to_string(), "a".to_string(), "".to_string()]);
    assert_eq!(split_char("1/2/3", '/'), vec!["1".to_string(), "2".to_string(), "3".to_string()]);
    assert_eq!(split_char("4//6", '/'), vec!["4".to_string(), "".to_string(), "6".to_string()]);
}

#[test]
fn split_agrees_with_std() {
    for s in ["a b", "", "a  b", " ", "x", "a b c "] {
        let ours = split_char(s, ' ');
        let std_split: Vec<String> = s.split(' ').map(|p| p.to_string()).collect();
        assert_eq!(ours, std_split, "input {:?}", s);
    }
}

#[test]
fn str_eq_compares_contents() {
    assert!(str_eq("abc", "abc"));
    assert!(str_eq("", ""));
    assert!(!str_eq("abc", "abd"));
    assert!(!str_eq("abc", "ab"));
}

#[test]
fn strip_prefix_takes_fixed_length() {
    assert_eq!(strip_prefix_chars("o name", 2), "name");
    assert_eq!(strip_prefix_chars("usemtl m", 7), "m");
    assert_eq!(strip_prefix_chars("o", 2), "");
    // Stripping is by position, not by replacement: repeated prefix text in
    // the payload stays untouched.
    assert_eq!(strip_prefix_chars("o o o ", 2), "o o ");
}

#[test]
fn classifier_maps_every_prefix() {
    assert_eq!(AttributeType::from_prefix("v"), AttributeType::Vertex);
    assert_eq!(AttributeType::from_prefix("vt"), AttributeType::Textures);
    assert_eq!(AttributeType::from_prefix("vn"), AttributeType::Normals);
    assert_eq!(AttributeType::from_prefix("vp"), AttributeType::ParameterSpace);
    assert_eq!(AttributeType::from_prefix("f"), AttributeType::Faces);
    assert_eq!(AttributeType::from_prefix("l"), AttributeType::Line);
    assert_eq!(AttributeType::from_prefix("o"), AttributeType::Name);
    assert_eq!(AttributeType::from_prefix("g"), AttributeType::Group);
    assert_eq!(AttributeType::from_prefix("s"), AttributeType::Smoothing);
    assert_eq!(AttributeType::from_prefix("usemtl"), AttributeType::Material);
    assert_eq!(AttributeType::from_prefix("mtllib"), AttributeType::MaterialPath);
    assert_eq!(AttributeType::from_prefix("#"), AttributeType::Unknown);
    assert_eq!(AttributeType::from_prefix(""), AttributeType::Unknown);
    assert_eq!(AttributeType::from_prefix("V"), AttributeType::Unknown);
    assert_eq!(AttributeType::from_prefix("vtx"), AttributeType::Unknown);
}

#[test]
fn face_new_and_points() {
    let f = Face::new(vec![0, 1, 2], vec![None, None, None], vec![Some(0), Some(1), Some(2)]);
    assert_eq!(f.points(), 3);
    assert_eq!(f.vertices, vec![0, 1, 2]);
    let empty = Face::new(vec![], vec![], vec![]);
    assert_eq!(empty.points(), 0);
}
