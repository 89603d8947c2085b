use mcscan::motd::parse_motd;
use mcscan::motd::parse_extra;
use mcscan::motd::strip_color_codes;
use mcscan::motd::ChatComponent;

fn node(text: &str, extra: Vec<ChatComponent>) -> ChatComponent {
    ChatComponent::Node { text: text.to_string(), extra }
}

#[test]
fn hello_world_object_flattens() {
    let component = node("Hello", vec![node(" World", vec![])]);
    assert_eq!(parse_motd(&component), "Hello World");
}

#[test]
fn plain_string_component_flattens_to_itself() {
    let component = ChatComponent::Text("A Minecraft Server".to_string());
    assert_eq!(parse_motd(&component), "A Minecraft Server");
}

#[test]
fn array_of_components_flattens_in_order() {
    let component = ChatComponent::List(vec![
        ChatComponent::Text("one".to_string()),
        node(" two", vec![]),
        ChatComponent::Text(" three".to_string()),
    ]);
    assert_eq!(parse_motd(&component), "one two three");
}

#[test]
fn nested_extras_flatten_depth_first() {
    let component = node(
        "a",
        vec![node("b", vec![node("c", vec![])]), node("d", vec![])],
    );
    assert_eq!(parse_motd(&component), "abcd");
}

#[test]
fn malformed_subtree_yields_the_empty_string() {
    assert_eq!(parse_motd(&ChatComponent::Invalid), "");
    let component = node("ok", vec![ChatComponent::Invalid, node("!", vec![])]);
    assert_eq!(parse_motd(&component), "ok!");
}

#[test]
fn extra_array_alone_flattens() {
    let extras = vec![node("x", vec![]), ChatComponent::Text("y".to_string())];
    assert_eq!(parse_extra(&extras), "xy");
}

#[test]
fn color_codes_are_stripped() {
    assert_eq!(strip_color_codes("\u{a7}aHello \u{a7}lWorld"), "Hello World");
    assert_eq!(strip_color_codes("plain"), "plain");
    assert_eq!(strip_color_codes(""), "");
}

#[test]
fn lone_trailing_section_sign_is_dropped() {
    assert_eq!(strip_color_codes("abc\u{a7}"), "abc");
    assert_eq!(strip_color_codes("\u{a7}"), "");
}

#[test]
fn color_codes_inside_components_are_stripped() {
    let component = node("\u{a7}6Gold", vec![node(" \u{a7}rPlain", vec![])]);
    assert_eq!(parse_motd(&component), "Gold Plain");
}
