use chat::{
    BuildError, Chat, ChatBuilder, ChatOrString, ChatType, ClickEvent, ClickEventAction,
    ClickEventBuilder, Color, DecodeError, HoverEvent, HoverEventAction, HoverEventBuilder, Score,
};

fn text_chat(t: &str) -> Chat {
    Chat {
        value: ChatType::String { text: t.to_string() },
        ..Chat::default()
    }
}

#[test]
fn string_serialize() {
    let chat = Chat {
        value: ChatType::String { text: "test".to_string() },
        ..Chat::default()
    };
    assert_eq!(chat.encode(), "{\"text\":\"test\"}")
}

#[test]
fn string_deserialize() {
    let chat = Chat {
        value: ChatType::String { text: "test".to_string() },
        ..Chat::default()
    };
    assert_eq!(chat, Chat::decode("{\"text\":\"test\"}").unwrap())
}

#[test]
fn big_test() {
    let chat = Chat {
        value: ChatType::String { text: "test".to_string() },
        bold: true,
        italic: true,
        underlined: true,
        strikethrough: true,
        obfuscated: true,
        color: "#ffff00".to_string(),
        insertion: Some("test".to_string()),
        click_event: Some(ClickEvent {
            action: "action".to_string(),
            value: "value".to_string(),
        }),
        hover_event: Some(HoverEvent {
            action: "action".to_string(),
            value: ChatOrString::String("string".to_string()),
        }),
        extra: vec![Chat {
            value: ChatType::Score {
                score: Score::new("Name".to_string(), "objective".to_string(), 42.to_string()),
            },
            bold: false,
            italic: false,
            underlined: true,
            strikethrough: false,
            obfuscated: true,
            color: "reset".to_string(),
            insertion: None,
            click_event: Some(ClickEvent {
                action: "action2".to_string(),
                value: "value2".to_string(),
            }),
            hover_event: Some(HoverEvent {
                action: "action".to_string(),
                value: ChatOrString::Chat(Box::new(Chat {
                    value: ChatType::String { text: "test".to_string() },
                    ..Default::default()
                })),
            }),
            extra: vec![],
        }],
    };
    assert_eq!(chat.encode(), "{\"text\":\"test\",\"bold\":true,\"italic\":true,\"underlined\":true,\"strikethrough\":true,\"obfuscated\":true,\"color\":\"#ffff00\",\"insertion\":\"test\",\"click_event\":{\"action\":\"action\",\"value\":\"value\"},\"hover_event\":{\"action\":\"action\",\"value\":\"string\"},\"extra\":[{\"score\":{\"name\":\"Name\",\"objective\":\"objective\",\"value\":\"42\"},\"underlined\":true,\"obfuscated\":true,\"click_event\":{\"action\":\"action2\",\"value\":\"value2\"},\"hover_event\":{\"action\":\"action\",\"value\":{\"text\":\"test\"}}}]}");
}

#[test]
fn builder() {
    let message = ChatBuilder::default()
        .value(ChatType::String { text: "Hello!".to_string() })
        .bold(true)
        .color(Color::RGB(0, 12, 255))
        .hover_event(
            HoverEventBuilder::default()
                .action(HoverEventAction::ShowText)
                .value(ChatOrString::String("Test".to_string()))
                .build()
                .ok(),
        )
        .build()
        .unwrap();
    assert_eq!(message.encode(), "{\"text\":\"Hello!\",\"bold\":true,\"color\":\"#000CFF\",\"hover_event\":{\"action\":\"show_text\",\"value\":\"Test\"}}")
}

#[test]
fn full_field_encoding() {
    let child = Chat {
        value: ChatType::Score {
            score: Score::new("Name".to_string(), "objective".to_string(), "42".to_string()),
        },
        underlined: true,
        obfuscated: true,
        color: Color::Reset.code(),
        click_event: Some(ClickEvent {
            action: "action2".to_string(),
            value: "value2".to_string(),
        }),
        hover_event: Some(HoverEvent {
            action: "action".to_string(),
            value: ChatOrString::Chat(Box::new(text_chat("test"))),
        }),
        ..Chat::default()
    };
    let chat = Chat {
        value: ChatType::String { text: "test".to_string() },
        bold: true,
        italic: true,
        underlined: true,
        strikethrough: true,
        obfuscated: true,
        color: Color::RGB(255, 255, 0).code(),
        insertion: Some("test".to_string()),
        click_event: Some(ClickEvent {
            action: "action".to_string(),
            value: "value".to_string(),
        }),
        hover_event: Some(HoverEvent {
            action: "action".to_string(),
            value: ChatOrString::String("string".to_string()),
        }),
        extra: vec![child],
    };
    assert_eq!(chat.encode(), "{\"text\":\"test\",\"bold\":true,\"italic\":true,\"underlined\":true,\"strikethrough\":true,\"obfuscated\":true,\"color\":\"#FFFF00\",\"insertion\":\"test\",\"click_event\":{\"action\":\"action\",\"value\":\"value\"},\"hover_event\":{\"action\":\"action\",\"value\":\"string\"},\"extra\":[{\"score\":{\"name\":\"Name\",\"objective\":\"objective\",\"value\":\"42\"},\"underlined\":true,\"obfuscated\":true,\"click_event\":{\"action\":\"action2\",\"value\":\"value2\"},\"hover_event\":{\"action\":\"action\",\"value\":{\"text\":\"test\"}}}]}");
}

#[test]
fn default_omission() {
    let chat = text_chat("test");
    assert_eq!(chat.encode(), "{\"text\":\"test\"}");
}

#[test]
fn color_equivalence_class() {
    let mut with_none = text_chat("x");
    with_none.color = Color::NoColor.code();
    let mut with_reset = text_chat("x");
    with_reset.color = Color::Reset.code();
    let mut with_r = text_chat("x");
    with_r.color = "r".to_string();
    let mut with_reset_word = text_chat("x");
    with_reset_word.color = "reset".to_string();
    let expected = "{\"text\":\"x\"}";
    assert_eq!(with_none.encode(), expected);
    assert_eq!(with_reset.encode(), expected);
    assert_eq!(with_r.encode(), expected);
    assert_eq!(with_reset_word.encode(), expected);
}

#[test]
fn variant_discrimination_order() {
    // Both a valid `text` and a malformed `score`: the text shape wins and
    // the score branch is never consulted.
    let decoded = Chat::decode("{\"text\":\"t\",\"score\":12}").unwrap();
    assert_eq!(
        decoded.value,
        ChatType::String { text: "t".to_string() }
    );
}

#[test]
fn union_inference_string() {
    let decoded =
        Chat::decode("{\"text\":\"t\",\"hover_event\":{\"action\":\"a\",\"value\":\"plain\"}}")
            .unwrap();
    assert_eq!(
        decoded.hover_event.unwrap().value,
        ChatOrString::String("plain".to_string())
    );
}

#[test]
fn union_inference_chat() {
    let decoded = Chat::decode(
        "{\"text\":\"t\",\"hover_event\":{\"action\":\"a\",\"value\":{\"text\":\"in\"}}}",
    )
    .unwrap();
    assert_eq!(
        decoded.hover_event.unwrap().value,
        ChatOrString::Chat(Box::new(text_chat("in")))
    );
}

#[test]
fn union_inference_number_fails() {
    let err = Chat::decode("{\"text\":\"t\",\"hover_event\":{\"action\":\"a\",\"value\":7}}")
        .unwrap_err();
    assert_eq!(err, DecodeError::UnionShapeError);
}

#[test]
fn malformed_json() {
    assert_eq!(Chat::decode("not json").unwrap_err(), DecodeError::MalformedJson);
    assert_eq!(Chat::decode("{\"text\":\"a\"").unwrap_err(), DecodeError::MalformedJson);
    assert_eq!(Chat::decode("").unwrap_err(), DecodeError::MalformedJson);
}

#[test]
fn content_shape_error() {
    assert_eq!(Chat::decode("{\"bold\":true}").unwrap_err(), DecodeError::ContentShapeError);
    assert_eq!(Chat::decode("[1,2]").unwrap_err(), DecodeError::ContentShapeError);
    assert_eq!(
        Chat::decode("{\"score\":{\"name\":\"n\"}}").unwrap_err(),
        DecodeError::ContentShapeError
    );
}

#[test]
fn field_type_mismatch() {
    assert_eq!(
        Chat::decode("{\"text\":\"a\",\"bold\":\"yes\"}").unwrap_err(),
        DecodeError::FieldTypeMismatch("bold".to_string())
    );
    assert_eq!(
        Chat::decode("{\"text\":\"a\",\"color\":3}").unwrap_err(),
        DecodeError::FieldTypeMismatch("color".to_string())
    );
    assert_eq!(
        Chat::decode("{\"text\":\"a\",\"extra\":{}}").unwrap_err(),
        DecodeError::FieldTypeMismatch("extra".to_string())
    );
}

#[test]
fn round_trip_big() {
    let chat = Chat {
        value: ChatType::Score {
            score: Score::new("n".to_string(), "o".to_string(), "-3".to_string()),
        },
        bold: true,
        color: Color::Gold.code(),
        insertion: Some("i".to_string()),
        click_event: Some(ClickEvent {
            action: "open_url".to_string(),
            value: "https://example.invalid".to_string(),
        }),
        hover_event: Some(HoverEvent {
            action: "show_text".to_string(),
            value: ChatOrString::Chat(Box::new(text_chat("deep"))),
        }),
        extra: vec![text_chat("a"), text_chat("b")],
        ..Chat::default()
    };
    let text = chat.encode();
    assert_eq!(Chat::decode(&text).unwrap(), chat);
}

#[test]
fn round_trip_escapes() {
    let chat = text_chat("say \"hi\"\\ back\n\ttabbed\rline\u{8}\u{c}\u{1}end");
    let text = chat.encode();
    assert_eq!(Chat::decode(&text).unwrap(), chat);
    // Control characters take the two-digit lowercase unicode escape form.
    let simple = text_chat("\u{1f}");
    assert_eq!(simple.encode(), "{\"text\":\"\\u001f\"}");
}

#[test]
fn decode_with_whitespace_and_unknown_keys() {
    let decoded = Chat::decode(" { \"text\" : \"a\" , \"mystery\" : [ null , -1.5e3 ] } ").unwrap();
    assert_eq!(decoded, text_chat("a"));
}

#[test]
fn decode_unicode_escape() {
    let decoded = Chat::decode("{\"text\":\"\\u0041\\u00e9\"}").unwrap();
    assert_eq!(decoded, text_chat("A\u{e9}"));
}

#[test]
fn legacy_color_codes() {
    assert_eq!(Color::Black.code(), "0");
    assert_eq!(Color::DarkBlue.code(), "1");
    assert_eq!(Color::DarkGreen.code(), "2");
    assert_eq!(Color::DarkCyan.code(), "3");
    assert_eq!(Color::DarkRed.code(), "4");
    assert_eq!(Color::Purple.code(), "5");
    assert_eq!(Color::Gold.code(), "6");
    assert_eq!(Color::Gray.code(), "7");
    assert_eq!(Color::DarkGray.code(), "8");
    assert_eq!(Color::Blue.code(), "9");
    assert_eq!(Color::Lime.code(), "a");
    assert_eq!(Color::Cyan.code(), "b");
    assert_eq!(Color::Red.code(), "c");
    assert_eq!(Color::Pink.code(), "d");
    assert_eq!(Color::Yellow.code(), "e");
    assert_eq!(Color::White.code(), "f");
    assert_eq!(Color::Reset.code(), "r");
    assert_eq!(Color::NoColor.code(), "");
    assert_eq!(Color::RGB(0, 12, 255).code(), "#000CFF");
    assert_eq!(Color::RGB(255, 255, 0).code(), "#FFFF00");
}

#[test]
fn action_codes() {
    assert_eq!(ClickEventAction::OpenUrl.code(), "open_url");
    assert_eq!(ClickEventAction::RunCommand.code(), "run_command");
    assert_eq!(ClickEventAction::SuggestCommand.code(), "suggest_command");
    assert_eq!(ClickEventAction::ChangePage.code(), "change_page");
    assert_eq!(HoverEventAction::ShowText.code(), "show_text");
    assert_eq!(HoverEventAction::ShowItem.code(), "show_item");
    assert_eq!(HoverEventAction::ShowEntity.code(), "show_entity");
}

#[test]
fn builder_missing_content() {
    assert_eq!(ChatBuilder::default().bold(true).build().unwrap_err(), BuildError::MissingRequiredField);
    assert_eq!(
        ClickEventBuilder::default().action(ClickEventAction::OpenUrl).build().unwrap_err(),
        BuildError::MissingRequiredField
    );
    assert_eq!(
        HoverEventBuilder::default()
            .value(ChatOrString::String("v".to_string()))
            .build()
            .unwrap_err(),
        BuildError::MissingRequiredField
    );
}

#[test]
fn click_event_builder() {
    let event = ClickEventBuilder::default()
        .action(ClickEventAction::RunCommand)
        .value("/help".to_string())
        .build()
        .unwrap();
    assert_eq!(
        event,
        ClickEvent { action: "run_command".to_string(), value: "/help".to_string() }
    );
}

#[test]
fn score_new_fields_round_trip() {
    let chat = Chat {
        value: ChatType::Score {
            score: Score::new("p".to_string(), "obj".to_string(), "7".to_string()),
        },
        ..Chat::default()
    };
    assert_eq!(
        chat.encode(),
        "{\"score\":{\"name\":\"p\",\"objective\":\"obj\",\"value\":\"7\"}}"
    );
    assert_eq!(Chat::decode(&chat.encode()).unwrap(), chat);
}

#[test]
fn decode_defaults_for_absent_fields() {
    let decoded = Chat::decode("{\"text\":\"d\"}").unwrap();
    assert!(!decoded.bold && !decoded.italic && !decoded.underlined);
    assert!(!decoded.strikethrough && !decoded.obfuscated);
    assert_eq!(decoded.color, "");
    assert_eq!(decoded.insertion, None);
    assert_eq!(decoded.click_event, None);
    assert_eq!(decoded.hover_event, None);
    assert!(decoded.extra.is_empty());
}
