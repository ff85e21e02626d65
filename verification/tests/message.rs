use im_bridge::message::{translate_elements, MessageElement};

#[test]
fn known_elements_are_carried_in_order_and_unknown_dropped() {
    let elems = vec![
        MessageElement::Other,
        MessageElement::Text { content: "hi".to_string() },
        MessageElement::At { target: 42 },
        MessageElement::Other,
        MessageElement::Dice { value: 6 },
        MessageElement::Other,
    ];
    let carried = translate_elements(&elems);
    assert_eq!(carried.len(), 3);
    assert!(matches!(&carried[0], MessageElement::Text { content } if content == "hi"));
    assert!(matches!(carried[1], MessageElement::At { target: 42 }));
    assert!(matches!(carried[2], MessageElement::Dice { value: 6 }));
}

#[test]
fn all_unknown_elements_leave_nothing() {
    let elems = vec![MessageElement::Other, MessageElement::Other];
    assert!(translate_elements(&elems).is_empty());
}

#[test]
fn an_empty_message_stays_empty() {
    let elems: Vec<MessageElement> = Vec::new();
    assert!(translate_elements(&elems).is_empty());
}

#[test]
fn every_known_kind_survives() {
    let elems = vec![
        MessageElement::At { target: 1 },
        MessageElement::Text { content: "t".to_string() },
        MessageElement::Face { index: 2 },
        MessageElement::MarketFace { name: "m".to_string() },
        MessageElement::Dice { value: 3 },
        MessageElement::FingerGuessing { value: 1 },
        MessageElement::LightApp { content: "l".to_string() },
        MessageElement::RichMsg { content: "r".to_string() },
        MessageElement::FriendImage { url: "f".to_string() },
        MessageElement::GroupImage { url: "g".to_string() },
        MessageElement::FlashImage { url: "x".to_string() },
        MessageElement::VideoFile { name: "v".to_string() },
    ];
    assert_eq!(translate_elements(&elems).len(), elems.len());
}
