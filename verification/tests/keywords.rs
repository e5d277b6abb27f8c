use sprity_aseprite::binary::chunks::user_data::UserDataChunk;
use sprity_aseprite::keywords::{char_is_white_space, has_keyword, text_chars};
use sprity_aseprite::wrappers::LayerParameter;

fn parameters(text: &str) -> Vec<LayerParameter> {
    let user_data = UserDataChunk { text: Some(text), color: None };
    let map = user_data.parse_text_as_layer_parameters();
    let mut found = Vec::new();
    for parameter in [LayerParameter::Hitbox, LayerParameter::Invisible] {
        if let Some(value) = map.get(&parameter) {
            assert_eq!(value, "");
            found.push(parameter);
        }
    }
    assert_eq!(map.len(), found.len());
    found
}

#[test]
fn layer_parameters_are_the_keywords_of_the_list() {
    assert_eq!(parameters("hitbox"), vec![LayerParameter::Hitbox]);
    assert_eq!(parameters("invisible"), vec![LayerParameter::Invisible]);
    assert_eq!(parameters("hitbox,invisible"), vec![LayerParameter::Hitbox, LayerParameter::Invisible]);
    assert_eq!(parameters("invisible,hitbox"), vec![LayerParameter::Hitbox, LayerParameter::Invisible]);
    assert_eq!(parameters("hitbox,hitbox"), vec![LayerParameter::Hitbox]);
    assert_eq!(parameters(""), vec![]);
    assert_eq!(parameters(","), vec![]);
    assert_eq!(parameters("l1"), vec![]);
}

#[test]
fn keywords_are_trimmed_and_their_case_is_ignored() {
    assert_eq!(parameters("  HitBox \t"), vec![LayerParameter::Hitbox]);
    assert_eq!(parameters("a, INVISIBLE ,b"), vec![LayerParameter::Invisible]);
    assert_eq!(parameters("\u{a0}hitbox\u{2003}"), vec![LayerParameter::Hitbox]);
    assert_eq!(parameters("hit box"), vec![]);
    assert_eq!(parameters("hitboxes"), vec![]);
    assert_eq!(parameters("a hitbox"), vec![]);
    assert_eq!(parameters("hitbox;invisible"), vec![]);
    assert_eq!(parameters("hıtbox"), vec![]);
    assert_eq!(parameters("Hitbox,"), vec![LayerParameter::Hitbox]);
    assert_eq!(parameters(",,invisible"), vec![LayerParameter::Invisible]);
}

#[test]
fn user_data_without_text_sets_nothing() {
    let user_data = UserDataChunk::default();
    assert!(user_data.parse_text_as_layer_parameters().is_empty());
    assert!(user_data.parse_text_as_tag_parameters().is_empty());
    let with_text = UserDataChunk { text: Some("hitbox,invisible"), color: None };
    assert!(with_text.parse_text_as_tag_parameters().is_empty());
}

#[test]
fn keyword_search_agrees_with_split_trim_and_lowercase() {
    let texts = [
        "", "hitbox", " hitbox", "hitbox ", "a,hitbox", "hitbox,a", "a, hitbox ,b", "HITBOX", "hit,box", ",", ",hitbox,",
        "hitbo", "xhitbox", "\thitbox\n", "hitbox\u{85}", "\u{3000}hitbox", "h i t b o x", "ＨＩＴＢＯＸ",
    ];
    let keyword: Vec<char> = "hitbox".chars().collect();
    for text in texts {
        let expected = text.split(',').map(str::trim).map(str::to_ascii_lowercase).any(|item| item == "hitbox");
        assert_eq!(has_keyword(&text_chars(text), &keyword), expected, "{text:?}");
    }
}

#[test]
fn text_chars_are_the_characters_of_the_text() {
    assert_eq!(text_chars("héllo ☃"), "héllo ☃".chars().collect::<Vec<char>>());
    assert_eq!(text_chars(""), Vec::<char>::new());
}

#[test]
fn white_space_is_what_the_standard_library_counts_as_such() {
    for code in 0..0x3100u32 {
        if let Some(c) = char::from_u32(code) {
            assert_eq!(char_is_white_space(c), c.is_whitespace(), "{code:#x}");
        }
    }
    assert!(!char_is_white_space('\u{feff}'));
    assert!(!char_is_white_space('\u{10ffff}'));
}
