use marius_forge::db::naming::{to_pascal, to_screaming};

#[test]
fn pascal_simple() {
    assert_eq!(to_pascal("content_core"), "ContentCore");
}

#[test]
fn pascal_compound() {
    assert_eq!(to_pascal("commerce_product_core"), "CommerceProductCore");
}

#[test]
fn screaming_simple() {
    assert_eq!(to_screaming("content_core"), "CONTENT_CORE");
}

#[test]
fn screaming_compound() {
    assert_eq!(
        to_screaming("commerce_product_core"),
        "COMMERCE_PRODUCT_CORE"
    );
}
