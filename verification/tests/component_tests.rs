use wireproto::component::{
    flatten_text, FormattedText, StringOrComponent, TextComponent, TranslatableComponent,
};

fn string_args(parts: &[&str]) -> Vec<StringOrComponent> {
    parts
        .iter()
        .map(|s| StringOrComponent::String(s.to_string()))
        .collect()
}

#[test]
fn test_none() {
    let c = TranslatableComponent::new("translation.test.none".to_string(), vec![]);
    assert_eq!(
        c.read("Hello, world!").unwrap().text,
        "Hello, world!".to_string()
    );
}

#[test]
fn test_complex() {
    let c = TranslatableComponent::new(
        "translation.test.complex".to_string(),
        string_args(&["a", "b", "c", "d"]),
    );
    assert_eq!(
        c.read("Prefix, %s%2$s again %s and %1$s lastly %s and also %1$s again!")
            .unwrap()
            .text,
        "Prefix, ab again b and a lastly c and also a again!".to_string()
    );
}

#[test]
fn test_escape() {
    let c = TranslatableComponent::new(
        "translation.test.escape".to_string(),
        string_args(&["a", "b", "c", "d"]),
    );
    assert_eq!(
        c.read("%%s %%%s %%%%s %%%%b").unwrap().text,
        "%s %a %%s %%b".to_string()
    );
}

#[test]
fn test_invalid() {
    let c = TranslatableComponent::new(
        "translation.test.invalid".to_string(),
        string_args(&["a", "b", "c", "d"]),
    );
    assert_eq!(c.read("hi %").unwrap().text, "hi %".to_string());
}

#[test]
fn test_invalid2() {
    let c = TranslatableComponent::new(
        "translation.test.invalid2".to_string(),
        string_args(&["a", "b", "c", "d"]),
    );
    assert_eq!(c.read("hi %  s").unwrap().text, "hi %  s".to_string());
}

#[test]
fn template_digit_without_marker_is_error() {
    let c = TranslatableComponent::new("k".to_string(), string_args(&["a"]));
    assert!(c.read("oops %1s").is_err());
}

#[test]
fn missing_arguments_become_empty() {
    let c = TranslatableComponent::new("k".to_string(), vec![]);
    assert_eq!(c.read("a%sb").unwrap().text, "ab");
}

#[test]
fn flatten_concatenates_siblings() {
    let mut base = wireproto::component::BaseComponent::new();
    base.siblings
        .push(FormattedText::Text(TextComponent::new(" world".to_string())));
    let c = FormattedText::Text(TextComponent {
        base,
        text: "hello".to_string(),
    });
    assert_eq!(flatten_text(&c), "hello world");
}
