use webserver::adder::{greetings, prints_and_returns, Guess, Rectangle};

#[test]
fn lib_it_works() {
    assert_eq!(2 + 2, 4);
}

#[test]
fn it_works2() {
    assert_ne!(2 + 2, 5);
}

#[test]
fn larger_can_hold_smaller() {
    let larger = Rectangle { width: 8, height: 7 };
    let smaller = Rectangle { width: 5, height: 1 };

    assert!(larger.can_hold(&smaller));
}

#[test]
fn test_name() {
    let result = greetings("Gok");
    assert!(
        result.contains("Gok"),
        "Naming function did not work, it returned this: {}",
        result
    )
}

#[test]
fn it_works_result() -> Result<(), String> {
    if 2 + 2 == 4 {
        Ok(())
    } else {
        Err(String::from("two plus two does not equal four"))
    }
}

#[test]
fn this_test_will_pass() {
    let value = prints_and_returns(4);
    assert_eq!(10, value);
}

#[test]
fn smaller_cannot_hold_larger() {
    let larger = Rectangle { width: 8, height: 7 };
    let smaller = Rectangle { width: 5, height: 1 };
    assert!(!smaller.can_hold(&larger));
    // Equal sides leave no room to spare.
    assert!(!larger.can_hold(&larger));
}

#[test]
fn greeting_is_exact() {
    assert_eq!(greetings("Gok"), "Yo Gok!");
    assert_eq!(greetings(""), "Yo !");
}

#[test]
fn guess_keeps_its_value() {
    assert_eq!(Guess::new(1).value(), 1);
    assert_eq!(Guess::new(100).value(), 100);
    assert_eq!(Guess::new_2(42).value(), 42);
}
