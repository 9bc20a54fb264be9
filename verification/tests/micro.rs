use hessian_decoder::groups::Groups;
use hessian_decoder::micro::{
    build_full_name, copy_and_return, fruit_basket, is_even, Container, Person,
};

#[test]
fn indexing_tuple() {
    let numbers = (1, 2, 3);
    let second = numbers.1;

    assert_eq!(
        2, second,
        "This is not the 2nd number in the tuple: {}",
        second
    )
}

#[test]
fn indexing_array() {
    let characters = ['a', 'b', 'c', 'd', 'e'];
    let letter_d = characters[3];

    assert_eq!(
        'd', letter_d,
        "This is not the character for the letter d: {}",
        letter_d
    )
}

#[test]
fn test_option() {
    let john = Person {
        first: String::from("James"),
        middle: Some(String::from("Oliver")),
        last: String::from("Smith"),
    };
    assert_eq!(build_full_name(&john), "James Oliver Smith");

    let alice = Person {
        first: String::from("Alice"),
        middle: None,
        last: String::from("Stevens"),
    };
    assert_eq!(build_full_name(&alice), "Alice Stevens");

    let bob = Person {
        first: String::from("Robert"),
        middle: Some(String::from("Murdock")),
        last: String::from("Jones"),
    };
    assert_eq!(build_full_name(&bob), "Robert Murdock Jones");
}

#[test]
fn micro_test_lifetime() {
    let name1 = "Joe";
    let name2 = "Chris";
    let name3 = "Anne";

    let mut names = Vec::new();

    assert_eq!("Joe", copy_and_return(&mut names, &name1));
    assert_eq!("Chris", copy_and_return(&mut names, &name2));
    assert_eq!("Anne", copy_and_return(&mut names, &name3));

    assert_eq!(
        names,
        vec!["Joe".to_string(), "Chris".to_string(), "Anne".to_string()]
    )
}

#[test]
fn test_generic() {
    let container = Container::new(r#"1111"#);
    let val = container.println();
    println!("{}", val);
    assert_eq!(Container::new(42).value, 42);
    assert_eq!(Container::new(3.14).value, 3.14);
    assert_eq!(Container::new("Foo").value, "Foo");
    assert_eq!(
        Container::new(String::from("Bar")).value,
        String::from("Bar")
    );
    assert_eq!(Container::new(true).value, true);
    assert_eq!(Container::new(-12).value, -12);
    assert_eq!(Container::new(Some("text")).value, Some("text"));
}

#[test]
fn is_true_when_even() {
    assert!(is_even(2), "true");
}

#[test]
fn is_false_when_odd() {
    assert!(!is_even(3), "true");
}

#[test]
fn is_even_of_negative_numbers() {
    assert!(is_even(0));
    assert!(is_even(-2));
    assert!(!is_even(-3));
    assert!(!is_even(i32::MAX));
    assert!(is_even(i32::MIN));
}

#[test]
fn test_fruit_basket() {
    let ret = fruit_basket();
    ret.into_iter().for_each(|f| {
        println!("{}={}\n", f.0, f.1);
    })
}

#[test]
fn fruit_basket_holds_three_kinds() {
    let ret = fruit_basket();
    assert_eq!(
        ret,
        vec![
            (String::from("banana"), 2),
            (String::from("apple"), 3),
            (String::from("pear"), 4)
        ]
    );
}

#[test]
fn test_iter_generic() {
    let char = vec!['a', 'b', 'b', 'c'];
    assert_eq!(
        Groups::new(char).into_vec(),
        vec![vec!['a'], vec!['b', 'b'], vec!['c']]
    );

    let string = vec!["123", "123", "456"];
    assert_eq!(
        Groups::new(string).into_vec(),
        vec![vec!["123", "123"], vec!["456"]]
    );

    let data = vec![4, 1, 1, 2, 1, 3, 3, -2, -2, -2, 5, 5];
    // groups:     |->|---->|->|->|--->|----------->|--->|

    assert_eq!(
        Groups::new(data).into_vec(),
        vec![
            vec![4],
            vec![1, 1],
            vec![2],
            vec![1],
            vec![3, 3],
            vec![-2, -2, -2],
            vec![5, 5],
        ]
    );

    let data2 = vec![1, 2, 2, 1, 1, 2, 2, 3, 4, 4, 3];
    // groups:      |->|---->|---->|----|->|----->|->|
    assert_eq!(
        Groups::new(data2).into_vec(),
        vec![
            vec![1],
            vec![2, 2],
            vec![1, 1],
            vec![2, 2],
            vec![3],
            vec![4, 4],
            vec![3],
        ]
    )
}

#[test]
fn groups_are_handed_out_one_by_one() {
    let mut groups = Groups::new(vec![7, 7, 8]);
    assert_eq!(groups.next(), Some(vec![7, 7]));
    assert_eq!(groups.inner, vec![8]);
    assert_eq!(groups.next(), Some(vec![8]));
    assert_eq!(groups.next(), None);
    assert_eq!(groups.next(), None);
    assert_eq!(Groups::new(Vec::<u8>::new()).into_vec(), Vec::<Vec<u8>>::new());
}
