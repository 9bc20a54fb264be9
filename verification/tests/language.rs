use hessian_decoder::clourse::test_pass_clourse;
use hessian_decoder::java_stream::{detect_java_ver, foobar, Bar, Foo};
use hessian_decoder::live::{nop_drop, test_str, ByteIter, LifeCycle};
use hessian_decoder::named::Person;
use hessian_decoder::obj_ref::{get_name, Address, UserInfo};
use hessian_decoder::pointer::{GradeLevel, UserInfo as Classmate};
use hessian_decoder::zen::Add;
use std::fmt::Debug;
use std::mem::size_of;

#[test]
fn test_basic_clourse() {
    let func = |x| (x * x) as u32;
    let val = test_pass_clourse(10, func);
    println!("{}", val);
    let val2 = test_pass_clourse(101 + func(50) as i32, func);
    println!("{} ", val2);
}

#[test]
fn closure_result_is_handed_back() {
    let func = |x: i32| (x * x) as u32;
    assert_eq!(test_pass_clourse(10, func), 100);
    assert_eq!(test_pass_clourse(101 + func(50) as i32, func), 2601 * 2601);
    assert_eq!(test_pass_clourse(-3, |x: i32| (x + 3) as u32), 0);
}

#[test]
fn test_1_1_1() {
    let addr = Address {
        phone: "13800138000".to_string(),
        zip_code: "518000".to_string(),
        addr: "湖南长沙".to_string(),
    };

    let info = UserInfo::new(&addr, "直接截屏", 18);

    println!("==={:?} \n {:?}, name is {}", addr, info, get_name(&info));
}

#[test]
fn user_info_keeps_its_parts() {
    let addr = Address {
        phone: "13800138000".to_string(),
        zip_code: "518000".to_string(),
        addr: "湖南长沙".to_string(),
    };
    let info = UserInfo::new(&addr, "直接截屏", 18);
    assert_eq!(info.name(), "直接截屏");
    assert_eq!(get_name(&info), "直接截屏");
    assert_eq!(info.age, 18);
    assert_eq!(info.addr.zip_code, "518000");
    assert_eq!(info.addr.phone, "13800138000");
}

#[test]
fn test_lifecycle() {
    let val = test_str("a", "b");
    println!("get ret val {}", val);
    let l1 = LifeCycle::new(0);
    nop_drop(l1);
    for i in 1..10 {
        let val = LifeCycle::new(i);
        println!("{:?}", val);
    }

    println!("exit.")
}

#[test]
fn first_text_is_returned() {
    assert_eq!(test_str("a", "b"), "a");
    assert_eq!(test_str("", "b"), "");
    assert_eq!(LifeCycle::new(7).0, 7);
}

#[test]
fn lib_test_lifetime() {
    let mut bytes = ByteIter { remainer: b"12" };
    let byte = &bytes.next();
    let byte2 = &bytes.next();
    if byte == byte2 {
        println!("equals both byte")
    }
}

#[test]
fn byte_iter_hands_out_each_byte_once() {
    let mut bytes = ByteIter { remainer: b"12" };
    assert_eq!(bytes.next(), Some(&b'1'));
    assert_eq!(bytes.remainer, b"2");
    assert_eq!(bytes.next(), Some(&b'2'));
    assert_eq!(bytes.remainer, b"");
    assert_eq!(bytes.next(), None);
    assert_eq!(bytes.next(), None);
}

#[test]
fn infer() {
    let foo = foobar::<Foo>(10);
    let bar = foobar::<Bar>(20);
    assert_eq!(foo, Foo(10));
    assert_eq!(bar, Bar(20, 30));
}

#[test]
fn java_stream_header() {
    assert_eq!(detect_java_ver(&[0xac, 0xed, 0x00, 0x05]), ("java searialize format", 5));
    assert_eq!(detect_java_ver(&[0xac, 0xed, 0x01, 0x02, 0x73]), ("java searialize format", 258));
    assert_eq!(detect_java_ver(&[0xac, 0xee, 0x00, 0x05]), ("other format", 999));
    assert_eq!(detect_java_ver(&[0x31, 0x32]), ("other format", 999));
}

fn debug<T: Debug>(t: T) {
    println!("{:?}", t);
}

fn debug_ref<T: Debug + ?Sized>(t: &T) {
    println!("{:?}", t);
}

#[test]
fn test_sized() {
    debug("pass str with sized");
}

#[test]
fn test_unsized() {
    debug_ref("pass str with unsized!");
}

#[test]
fn test_ret_ref() {
    let str = "hello";
    let ptr = str.as_ptr();
    let len = str.len();
    println!("{:p}", ptr);
    println!("{}", len);

    let a: i32 = 0;
    println!("a is {}", a.is_positive());
}

#[test]
fn test_pure_event_xml() {}

#[test]
fn zen_test() {
    println!("rust's zen : ownership, borrow, trait.....");
}

#[test]
fn test_owner_move() {
    let x = 1;
    let y = Box::new(33);
    println!("{:p}", y);
    let x1 = x;
    let y1 = y;
    println!("new x {}, y {}", x, y1);
    let mut list = Vec::<i32>::new();
    list.push(11);
    assert_eq!(x1, 1);
    assert_eq!(list, vec![11]);
}

#[test]
fn test_into() {
    let p1 = Person::new("aaa");
    let p2 = Person::new("string".to_string());
    println!("{:?}, {:?}", p1, p2);
}

#[test]
fn person_takes_its_name() {
    assert_eq!(Person::new("aaa").name, "aaa");
    assert_eq!(Person::new("string".to_string()).name, "string");
}

#[derive(Debug)]
struct Point {
    x: i32,
    y: i32,
}

#[test]
fn test_rc() {
    let number = Point { x: 1, y: 2 };
    let rc_num = std::rc::Rc::new(number);
    let cloned = rc_num.clone();
    println!("{:?} {:?}", rc_num, cloned);
    assert_eq!((cloned.x, cloned.y), (1, 2));
}

struct Margin {
    a: i32,
    b: i32,
    c: char,
}

#[test]
fn test_margin() {
    println!("size of {} ", size_of::<Margin>());
    let m = Margin { a: 1, b: 2, c: 'c' };
    assert_eq!((m.a, m.b, m.c), (1, 2, 'c'));
}

struct Sample {}

#[test]
fn test_size_assert() {
    let width: usize = size_of::<&()>();
    println!("{}", size_of::<Sample>());
    assert_eq!(width, size_of::<&Sample>());
}

#[test]
fn test_op_add() {
    let a: u64 = 1;
    let b: u32 = 100;
    let c = b.add(a);
    println!("{}", c);
    assert_eq!(c, 101);
    assert_eq!(u32::MAX.add(u64::MAX - u32::MAX as u64), u64::MAX);
}

#[test]
fn grades_by_score() {
    let mate = Classmate::new(1, 95);
    assert_eq!((mate.num, mate.scope, mate.level), (1, 95, None));
    let expected = [
        (0, GradeLevel::E),
        (59, GradeLevel::E),
        (60, GradeLevel::D),
        (69, GradeLevel::D),
        (70, GradeLevel::C),
        (79, GradeLevel::C),
        (80, GradeLevel::B),
        (89, GradeLevel::B),
        (90, GradeLevel::A),
        (100, GradeLevel::A),
        (101, GradeLevel::E),
        (u32::MAX, GradeLevel::E),
    ];
    for (scope, level) in expected {
        assert_eq!(Classmate::new(7, scope).grade(), level);
    }
}
