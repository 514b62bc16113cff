use rust_ryda::greeter::MyGreeter;

#[test]
fn greets_by_name() {
    let greeter = MyGreeter::default();
    assert_eq!(greeter.say_hello("world"), String::from("Hello, world!"));
}

#[test]
fn greets_an_empty_name() {
    let greeter = MyGreeter {};
    assert_eq!(greeter.say_hello(""), String::from("Hello, !"));
}
