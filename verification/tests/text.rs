use govee_bridge::text::{place, same_text, Place};

#[test]
fn place_orders_texts_by_their_bytes() {
    assert_eq!(place("Auto", "Custom"), Place::Before);
    assert_eq!(place("Custom", "Auto"), Place::After);
    assert_eq!(place("Auto", "Auto"), Place::Same);
    assert_eq!(place("", ""), Place::Same);
    assert_eq!(place("", "a"), Place::Before);
    assert_eq!(place("a", ""), Place::After);
    assert_eq!(place("ab", "abc"), Place::Before);
    assert_eq!(place("abd", "abc"), Place::After);
    assert_eq!(place("Z", "a"), Place::Before);
    assert_eq!(place("z", "é"), Place::Before);
    assert_eq!(place("é", "日"), Place::Before);
}

#[test]
fn place_agrees_with_the_order_of_str() {
    let texts = ["", "a", "A", "ab", "b", "é", "e\u{301}", "日本", "\u{10348}", "zz", "Auto"];
    for a in texts {
        for b in texts {
            let expected = match a.cmp(b) {
                std::cmp::Ordering::Less => Place::Before,
                std::cmp::Ordering::Equal => Place::Same,
                std::cmp::Ordering::Greater => Place::After,
            };
            assert_eq!(place(a, b), expected);
            assert_eq!(same_text(a, b), a == b);
        }
    }
}
