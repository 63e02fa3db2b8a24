use directory::glob::{glob_match_chars, GlobPattern};
use directory::lookup::{
    entries, entry, invalid_type_error, pair, Lookup, LookupError, LookupFormat, LookupType,
    Pattern,
};
use directory::text::{bytes_eq, chars_of, find_chars, occurs_at_chars, str_eq, trim, trim_bounds};

fn lines(text: &[&str]) -> Vec<String> {
    text.iter().map(|l| l.to_string()).collect()
}

fn format(lookup_type: LookupType, comment: Option<&str>, separator: Option<&str>) -> LookupFormat {
    LookupFormat {
        lookup_type,
        comment: comment.map(|c| c.to_string()),
        separator: separator.map(|c| c.to_string()),
    }
}

fn build(f: &LookupFormat, text: &[&str]) -> Lookup {
    match Lookup::build(f, &lines(text)) {
        Ok(lookup) => lookup,
        Err(e) => panic!("{:?}", e),
    }
}

#[test]
fn lookup_type_names() {
    assert_eq!(LookupType::parse_value("k", "list"), Ok(LookupType::List));
    assert_eq!(LookupType::parse_value("k", "glob"), Ok(LookupType::Glob));
    assert_eq!(LookupType::parse_value("k", "regex"), Ok(LookupType::Regex));
    assert_eq!(LookupType::parse_value("k", "map"), Ok(LookupType::Mapping));
}

#[test]
fn lookup_type_invalid_value_message() {
    assert_eq!(
        LookupType::parse_value("directory.x.lookup.type", "tree"),
        Err("Invalid value for lookup type \"directory.x.lookup.type\": \"tree\"".to_string())
    );
    assert_eq!(
        LookupType::parse_value("k", "List"),
        Err("Invalid value for lookup type \"k\": \"List\"".to_string())
    );
    assert_eq!(
        LookupType::parse_value("a\"b", "x\ny"),
        Err("Invalid value for lookup type \"a\\\"b\": \"x\\ny\"".to_string())
    );
    assert_eq!(invalid_type_error("K", "V"), "Invalid value for lookup type K: V");
}

#[test]
fn lookup_format_default() {
    let f = LookupFormat::default();
    assert_eq!(f.lookup_type, LookupType::Glob);
    assert_eq!(f.comment, None);
    assert_eq!(f.separator, None);
}

#[test]
fn glob_star_and_question_mark() {
    let g = GlobPattern::compile("a*c");
    assert!(g.matches("abc"));
    assert!(g.matches("ac"));
    assert!(!g.matches("abd"));
    assert!(g.matches("abcbc"));
    assert!(!g.matches("bac"));
    let q = GlobPattern::compile("a?c");
    assert!(q.matches("abc"));
    assert!(!q.matches("ac"));
    assert!(!q.matches("abbc"));
    assert!(q.matches("aéc"));
}

#[test]
fn glob_edges() {
    assert!(GlobPattern::compile("").matches(""));
    assert!(!GlobPattern::compile("").matches("a"));
    assert!(GlobPattern::compile("*").matches(""));
    assert!(GlobPattern::compile("*").matches("anything at all"));
    assert!(GlobPattern::compile("**").matches("x"));
    assert!(!GlobPattern::compile("?").matches(""));
    assert!(GlobPattern::compile("*@example.org").matches("alice@example.org"));
    assert!(!GlobPattern::compile("*@example.org").matches("alice@example.com"));
    assert!(GlobPattern::compile("*a*b*c*").matches("xxaxxbxxcxx"));
    assert!(!GlobPattern::compile("*a*b*c*").matches("xxcxxbxxaxx"));
    assert!(GlobPattern::compile("plain").matches("plain"));
    assert!(!GlobPattern::compile("plain").matches("plain "));
    assert!(!GlobPattern::compile("Plain").matches("plain"));
    let p: Vec<char> = "a*".chars().collect();
    let t: Vec<char> = "ab".chars().collect();
    assert!(glob_match_chars(&p, &t));
    assert!(!glob_match_chars(&t, &p));
}

#[test]
fn lookup_scenario_glob() {
    let l = build(&format(LookupType::Glob, None, None), &["a*c"]);
    assert!(l.matches("abc"));
    assert!(l.matches("ac"));
    assert!(!l.matches("abd"));
    assert_eq!(l.resolve("abc"), None);
}

#[test]
fn lookup_scenario_map() {
    let l = build(&format(LookupType::Mapping, None, Some(":")), &["k: v"]);
    assert_eq!(l.resolve("k"), Some("v"));
    assert_eq!(l.resolve("v"), None);
    assert_eq!(l.resolve("k: v"), None);
    assert!(l.matches("k"));
    assert!(!l.matches("x"));
}

#[test]
fn comment_lines_are_left_out_of_every_type() {
    let text = ["# a*c", "  # k: v", "#abc", "abc", "k: v"];
    let list = build(&format(LookupType::List, Some("#"), None), &text);
    assert!(list.matches("abc"));
    assert!(!list.matches("#abc"));
    assert!(!list.matches("# a*c"));
    let glob = build(&format(LookupType::Glob, Some("#"), None), &text);
    assert!(glob.matches("abc"));
    assert!(!glob.matches("# abc"));
    assert!(!glob.matches("#abc"));
    let regex = build(&format(LookupType::Regex, Some("#"), None), &["# [", "^ab+c$"]);
    assert!(regex.matches("abbbc"));
    assert!(!regex.matches("# ["));
    let map = build(&format(LookupType::Mapping, Some("#"), Some(":")), &text);
    assert_eq!(map.resolve("k"), Some("v"));
    assert_eq!(map.resolve("# k"), None);
    assert_eq!(map.resolve("#abc"), None);
    assert_eq!(map.resolve("abc"), Some(""));
}

#[test]
fn without_a_marker_nothing_is_a_comment() {
    let list = build(&format(LookupType::List, None, None), &["#abc"]);
    assert!(list.matches("#abc"));
    let other = build(&format(LookupType::List, Some("//"), None), &["#abc", "// x", "/x"]);
    assert!(other.matches("#abc"));
    assert!(other.matches("/x"));
    assert!(!other.matches("// x"));
}

#[test]
fn list_is_exact_membership() {
    let l = build(&format(LookupType::List, None, None), &["  alice  ", "", "   ", "bob", "a*c"]);
    assert!(l.matches("alice"));
    assert!(l.matches("bob"));
    assert!(l.matches("a*c"));
    assert!(!l.matches("abc"));
    assert!(!l.matches("  alice  "));
    assert!(!l.matches(""));
    assert!(!l.matches("Alice"));
}

#[test]
fn map_last_entry_wins() {
    let l = build(
        &format(LookupType::Mapping, None, Some("=")),
        &["a = 1", "b=2", "a= 3 ", "c", "d =", "e = x = y"],
    );
    assert_eq!(l.resolve("a"), Some("3"));
    assert_eq!(l.resolve("b"), Some("2"));
    assert_eq!(l.resolve("c"), Some(""));
    assert_eq!(l.resolve("d"), Some(""));
    assert_eq!(l.resolve("e"), Some("x = y"));
    assert_eq!(l.resolve("f"), None);
}

#[test]
fn map_without_separator_keeps_whole_line_as_key() {
    let l = build(&format(LookupType::Mapping, None, None), &["k: v", "plain"]);
    assert_eq!(l.resolve("k: v"), Some(""));
    assert_eq!(l.resolve("k"), None);
    assert_eq!(l.resolve("plain"), Some(""));
}

#[test]
fn map_with_long_separator() {
    let l = build(&format(LookupType::Mapping, None, Some("->")), &["a -> b", "x-y -> z"]);
    assert_eq!(l.resolve("a"), Some("b"));
    assert_eq!(l.resolve("x-y"), Some("z"));
    assert_eq!(pair(&Some("->".to_string()), "k->v->w"), ("k".to_string(), "v->w".to_string()));
    assert_eq!(pair(&Some("".to_string()), "kv"), ("".to_string(), "kv".to_string()));
    assert_eq!(pair(&None, "k v"), ("k v".to_string(), "".to_string()));
}

#[test]
fn regex_is_compiled_when_built() {
    let f = format(LookupType::Regex, None, None);
    let l = build(&f, &["^a.c$", "[0-9]+@example\\.org"]);
    assert!(l.matches("abc"));
    assert!(!l.matches("abcd"));
    assert!(l.matches("user 42@example.org"));
    assert!(!l.matches("x@example.org"));
    match Lookup::build(&f, &lines(&["ok", "(unclosed", "[also bad"])) {
        Err(e) => assert_eq!(e, LookupError::InvalidRegex("(unclosed".to_string())),
        Ok(_) => panic!("an invalid pattern was taken"),
    }
    // the same lines are fine as a list
    assert!(build(&format(LookupType::List, None, None), &["(unclosed"]).matches("(unclosed"));
}

#[test]
fn entries_keep_their_order() {
    let comment = Some(";".to_string());
    assert_eq!(
        entries(&comment, &lines(&[" b ", "; c", "a", "", "\t", ";", "b"])),
        lines(&["b", "a", "b"])
    );
    assert_eq!(entry(&comment, "  x ; y "), Some("x ; y"));
    assert_eq!(entry(&comment, "  ; y "), None);
    assert_eq!(entry(&None, "  ; y "), Some("; y"));
    assert_eq!(entry(&None, " \n "), None);
    // an empty marker stands at the front of every line
    assert_eq!(entry(&Some(String::new()), "x"), None);
}

#[test]
fn trim_removes_unicode_white_space() {
    assert_eq!(trim("  a b  "), "a b");
    assert_eq!(trim("\t\r\na\u{a0}\u{3000}"), "a");
    assert_eq!(trim("\u{2003}é \u{2028}"), "é");
    assert_eq!(trim(""), "");
    assert_eq!(trim(" \t "), "");
    assert_eq!(trim("x"), "x");
    // a zero width space is no white space
    assert_eq!(trim("\u{200b}a"), "\u{200b}a");
    let chars: Vec<char> = "  ab ".chars().collect();
    assert_eq!(trim_bounds(&chars), (2, 4));
    let blank: Vec<char> = "   ".chars().collect();
    assert_eq!(trim_bounds(&blank), (3, 3));
}

#[test]
fn text_search() {
    let text: Vec<char> = "abcabc".chars().collect();
    let bc: Vec<char> = "bc".chars().collect();
    let empty: Vec<char> = Vec::new();
    assert_eq!(find_chars(&text, &bc), Some(1));
    assert_eq!(find_chars(&text, &empty), Some(0));
    assert_eq!(find_chars(&empty, &empty), Some(0));
    assert_eq!(find_chars(&bc, &text), None);
    assert_eq!(find_chars(&text, &"cb".chars().collect()), None);
    assert_eq!(find_chars(&text, &"abc".chars().collect()), Some(0));
    assert!(occurs_at_chars(&text, &bc, 4));
    assert!(!occurs_at_chars(&text, &bc, 5));
    assert!(!occurs_at_chars(&text, &bc, 7));
    assert!(occurs_at_chars(&text, &empty, 6));
    assert_eq!(chars_of("aé𝄞"), vec!['a', 'é', '𝄞']);
    assert!(str_eq("é", "é"));
    assert!(!str_eq("e", "é"));
    assert!(str_eq("", ""));
    assert!(!str_eq("ab", "abc"));
    assert!(bytes_eq(&[1, 2], &[1, 2]));
    assert!(!bytes_eq(&[1, 2], &[1, 3]));
}

#[test]
fn pattern_is_compiled_from_its_text() {
    let pattern = Pattern::compile("^a+$").expect("a regular expression");
    assert_eq!(pattern.as_str(), "^a+$");
    assert!(pattern.is_match("aaa"));
    assert!(!pattern.is_match("AAA"));
    assert!(!pattern.is_match("ab"));
    assert!(Pattern::compile("a{2,1}").is_none());
    assert!(Pattern::compile("").expect("the empty expression").is_match("anything"));
}

#[test]
fn map_entries_are_trimmed_of_unicode_white_space() {
    let l = build(&format(LookupType::Mapping, None, Some(":")), &["\u{a0}k\u{2003}:\u{3000}v\t"]);
    assert_eq!(l.resolve("k"), Some("v"));
}
