use tensho::scripts::{
    collect_calls, extract_script_dependencies, normalize_script_name, parse_quoted_arg,
    wrap_card_script_for_manual_load, ScriptPreload,
};

#[test]
fn normalize_plain_names() {
    assert_eq!(normalize_script_name("  utility  ", false), "utility.lua");
    assert_eq!(normalize_script_name("utility.lua", false), "utility.lua");
    assert_eq!(normalize_script_name("proc.fusion", false), "proc.fusion.lua");
    assert_eq!(normalize_script_name("   ", false), "");
    assert_eq!(normalize_script_name("", true), "");
}

#[test]
fn normalize_require_names() {
    assert_eq!(normalize_script_name("proc.fusion", true), "proc/fusion.lua");
    assert_eq!(normalize_script_name("proc/fusion", true), "proc/fusion.lua");
    assert_eq!(normalize_script_name("\tproc_fusion.lua\n", true), "proc_fusion.lua");
}

#[test]
fn normalize_is_idempotent() {
    for name in ["a.b", " x ", "c123.lua", ".hidden"] {
        for from_require in [false, true] {
            let once = normalize_script_name(name, from_require);
            assert_eq!(normalize_script_name(&once, from_require), once);
        }
    }
}

#[test]
fn quoted_argument_parsing() {
    let text = "f(  'abc' ) g(\"d\") h(x)";
    assert_eq!(parse_quoted_arg(text, 2), Some((String::from("abc"), 9)));
    assert_eq!(parse_quoted_arg(text, 14), Some((String::from("d"), 17)));
    assert_eq!(parse_quoted_arg(text, 21), None);
    assert_eq!(parse_quoted_arg("'unterminated", 0), None);
    assert_eq!(parse_quoted_arg("abc", 10), None);
    assert_eq!(parse_quoted_arg("''", 0), Some((String::new(), 2)));
}

#[test]
fn quoted_argument_reads_bytes_as_characters() {
    let text = "'\u{e9}'";
    let (name, next) = parse_quoted_arg(text, 0).unwrap();
    assert_eq!(next, 4);
    assert_eq!(name.chars().collect::<Vec<char>>(), vec!['\u{c3}', '\u{a9}']);
}

#[test]
fn collect_calls_skips_known_names() {
    let mut out = vec![String::from("a.lua")];
    collect_calls("dofile('a') dofile('b.lua') dofile(x) dofile(' ')", "dofile(", false, &mut out);
    assert_eq!(out, vec![String::from("a.lua"), String::from("b.lua")]);
}

#[test]
fn dependencies_in_order_without_repeats() {
    let content = "require('proc.fusion')\nDuel.LoadScript(\"c123.lua\")\ndofile('util')\nDuel.LoadScript('c123.lua')\nrequire \"x\"";
    let deps = extract_script_dependencies(content);
    assert_eq!(
        deps,
        vec![
            String::from("c123.lua"),
            String::from("util.lua"),
            String::from("proc/fusion.lua"),
        ]
    );
}

#[test]
fn no_dependencies_in_plain_text() {
    assert!(extract_script_dependencies("local x = 1").is_empty());
}

#[test]
fn manual_load_wrapper_text() {
    let wrapped = wrap_card_script_for_manual_load(42, "body");
    let expected = "self_code=42\nc42=c42 or {}\nif c42.__tostring==nil and Debug and Debug.CardToStringWrapper then c42.__tostring=Debug.CardToStringWrapper end\nsetmetatable(c42, Card)\nrawset(c42,\"__index\",c42)\nself_table=c42\nbody\nself_table=nil\nself_code=nil\n";
    assert_eq!(wrapped, expected);
}

#[test]
fn preload_hands_each_script_once() {
    let mut preload = ScriptPreload::new();
    assert_eq!(preload.next_script(), Some(String::from("constant.lua")));
    preload.script_fetched("dofile('utility.lua') require('proc.a')");
    assert_eq!(preload.next_script(), Some(String::from("utility.lua")));
    preload.script_fetched("dofile('constant.lua') dofile('proc/a.lua')");
    assert_eq!(preload.next_script(), Some(String::from("proc/a.lua")));
    preload.script_fetched("");
    assert_eq!(preload.next_script(), None);
    assert_eq!(preload.next_script(), None);
}
