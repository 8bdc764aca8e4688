use crabsoup::codec::{csv_from_string, csv_to_list_of_tables};

fn s(x: &str) -> String {
    x.to_string()
}

#[test]
fn csv_rows() {
    assert_eq!(csv_from_string(b"a,b\nc\n").unwrap(), vec![vec![s("a"), s("b")], vec![s("c")]]);
    assert_eq!(csv_from_string(b"\"x\"\"y\",z\n").unwrap(), vec![vec![s("x\"y"), s("z")]]);
    assert_eq!(csv_from_string(b"").unwrap(), Vec::<Vec<String>>::new());
}

#[test]
fn csv_tables() {
    assert_eq!(
        csv_to_list_of_tables(b"x,y\n1,2\n3,4\n").unwrap(),
        vec![vec![(s("x"), s("1")), (s("y"), s("2"))], vec![(s("x"), s("3")), (s("y"), s("4"))]]
    );
    assert!(csv_to_list_of_tables(b"x,y\n1,2,3\n").is_err());
    assert_eq!(csv_to_list_of_tables(b"x,y\n").unwrap(), Vec::<Vec<(String, String)>>::new());
}
