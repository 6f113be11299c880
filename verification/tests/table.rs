use grok::table::Table;

fn names(table: &Table<u32>) -> Vec<String> {
    (0..table.len()).map(|i| table.name_at(i).to_string()).collect()
}

#[test]
fn a_table_lists_its_entries_in_the_order_of_their_names() {
    let table: Table<u32> = Table::new();
    assert_eq!(0, table.len());
    assert_eq!(None, table.get("a"));
    let table = table.with(String::from("user"), 3);
    let table = table.with(String::from("YEAR"), 1);
    let table = table.with(String::from("SPACE"), 2);
    let table = table.with(String::from(""), 9);
    let table = table.with(String::from("us"), 4);
    assert_eq!(vec!["", "SPACE", "YEAR", "us", "user"], names(&table));
    assert_eq!(5, table.len());
    assert_eq!(Some(&1), table.get("YEAR"));
    assert_eq!(Some(&9), table.get(""));
    assert_eq!(Some(&4), table.get("us"));
    assert_eq!(None, table.get("use"));
    assert_eq!(&2, table.value_at(1));
}

#[test]
fn a_value_takes_the_place_of_an_earlier_one() {
    let table: Table<u32> = Table::new();
    let table = table.with(String::from("b"), 1);
    let table = table.with(String::from("a"), 2);
    let table = table.with(String::from("b"), 3);
    let table = table.with(String::from("a"), 4);
    assert_eq!(vec!["a", "b"], names(&table));
    assert_eq!(Some(&4), table.get("a"));
    assert_eq!(Some(&3), table.get("b"));
    assert_eq!(2, table.len());
}
