use workpool::dbconn::{get_user_info, get_user_orders, DatabaseConnection};
use workpool::generics::{largest, largest_generic};
use workpool::longest::func;
use workpool::minigrep::Config;
use workpool::rect::Rect;
use workpool::summary::{NewsArticle, Summary};
use workpool::textutil::{push_decimal, push_repeated};

#[test]
fn config_needs_three_arguments() {
    let args = vec!["prog".to_string(), "needle".to_string()];
    assert_eq!(Config::build(&args).err(), Some("Not enough arguments"));

    let args = vec![
        "prog".to_string(),
        "needle".to_string(),
        "haystack.txt".to_string(),
        "extra".to_string(),
    ];
    let config = Config::build(&args).unwrap();
    assert_eq!(config.query, "needle");
    assert_eq!(config.filename, "haystack.txt");
}

#[test]
fn largest_of_numbers() {
    let number_list = vec![34, 50, 25, 100, 65];
    assert_eq!(*largest(&number_list), 100);
    assert_eq!(*largest(&[7]), 7);
    assert_eq!(*largest(&[-3, -9, -1]), -1);
}

#[test]
fn largest_of_anything_ordered() {
    let char_list = vec!['y', 'm', 'a', 'q'];
    assert_eq!(*largest_generic(&char_list), 'y');
    let number_list = vec![34, 50, 25, 100, 65];
    assert_eq!(*largest_generic(&number_list), 100);
}

#[test]
fn rectangle_area_and_legality() {
    let rect = Rect { width: 10, height: 13 };
    assert_eq!(rect.area(), 130);
    assert!(rect.is_legal());
    assert!(!Rect { width: 0, height: 5 }.is_legal());
    assert!(!Rect { width: 5, height: 0 }.is_legal());
}

#[test]
fn longer_string_wins_ties_to_the_second() {
    assert_eq!(func("hello", "hi"), "hello");
    assert_eq!(func("hi", "hello"), "hello");
    let a = "same";
    let b = "size";
    assert_eq!(func(a, b), "size");
}

#[test]
fn article_summaries() {
    let article = NewsArticle {
        headline: "Rust is awesome!".to_string(),
        location: "Internet".to_string(),
        author: "Rustacean".to_string(),
    };
    assert_eq!(article.summarize(), "Rust is awesome!, by Rustacean (Internet)");
    assert_eq!(article.default_summarize(), "(Read more from Rustacean...)");
}

#[test]
fn connection_queries() {
    let conn = DatabaseConnection::new(1, "localhost:5432");
    let rows = conn.query("SELECT version()");
    assert_eq!(rows, vec!["结果1".to_string(), "结果2".to_string()]);

    assert_eq!(get_user_info(&conn, 101), "用户信息: 结果1, 结果2");
    assert_eq!(
        get_user_orders(&conn, 101),
        vec!["结果1".to_string(), "结果2".to_string()]
    );
}

#[test]
fn closing_a_connection() {
    let mut conn = DatabaseConnection::new(5, "cache.redis.com");
    conn.close();
    conn.close();
}

#[test]
fn decimal_rendering() {
    let mut s = String::new();
    push_decimal(&mut s, 0);
    assert_eq!(s, "0");
    let mut s = String::new();
    push_decimal(&mut s, 12345);
    assert_eq!(s, "12345");
    let mut s = String::from("n = ");
    push_decimal(&mut s, 1000);
    assert_eq!(s, "n = 1000");
}

#[test]
fn repeated_characters() {
    let mut s = String::new();
    push_repeated(&mut s, '▄', 4);
    assert_eq!(s, "▄▄▄▄");
    push_repeated(&mut s, 'x', 0);
    assert_eq!(s, "▄▄▄▄");
}
