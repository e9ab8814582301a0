use tutorial_menu::{demonstrate_enums, demonstrate_reliability, demonstrate_structs};

#[test]
fn demonstrations_without_pages_return() {
    demonstrate_structs();
    demonstrate_enums();
    demonstrate_reliability();
}
