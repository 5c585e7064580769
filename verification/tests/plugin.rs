use talenode::plugin::{fill_plugin_template, replace_text};

#[test]
fn template_substitution() {
    let template = "name={{name}} ver={{version}} data={{json}}";
    let json = "{\n  \"version\": \"1.0\",\n  \"name\": \"MyDialogue\"\n}";
    let result = fill_plugin_template(template, json, "MyDialogue", "2.0");
    assert!(result.contains("name=MyDialogue"));
    assert!(result.contains("ver=2.0"));
    assert!(result.contains("\"version\": \"1.0\""));
}

#[test]
fn replace_text_is_left_to_right_without_overlap() {
    assert_eq!(replace_text("aaaa", "aa", "b"), "bb");
    assert_eq!(replace_text("abcabc", "bc", "X"), "aXaX");
    assert_eq!(replace_text("abc", "zz", "X"), "abc");
    assert_eq!(replace_text("", "a", "X"), "");
}

#[test]
fn placeholders_are_filled_one_after_the_other() {
    // The document is put in first, so a placeholder inside it is filled too.
    let result = fill_plugin_template("{{json}}|{{name}}", "{{name}}", "N", "v");
    assert_eq!(result, "N|N");
}
