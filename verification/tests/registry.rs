use toy_rust_db::data::{dataset_name, dataset_path, DataAccessor, CONFIG_FILE_NAME};
use toy_rust_db::driver::{project_row, run, Driver, QueryResult};
use toy_rust_db::error::{ErrorClass, EvalFault, QueryError};
use toy_rust_db::parser::{ParsedQuery, Parser};

const PEOPLE: &[u8] = b"id,name,age\n1,Alice,30\n2,Bob,25\n";

fn listing(names: &[&str]) -> Vec<Option<String>> {
    names.iter().map(|s| Some(s.to_string())).collect()
}

fn rows(table: &[&[&str]]) -> Vec<Vec<String>> {
    table.iter().map(|r| r.iter().map(|s| s.to_string()).collect()).collect()
}

fn people() -> DataAccessor {
    let (mut data, _) = DataAccessor::new(Some(b"dataset\npeople\n"), &Vec::new()).unwrap();
    data.load("people".to_string(), PEOPLE).unwrap();
    data
}

fn parse(text: &str, data: &[u8]) -> Result<ParsedQuery, QueryError> {
    let mut parser = Parser::new(text);
    let target = parser.parse_target()?;
    let headers = DataAccessor::get_headers(data)?;
    parser.parse(target, &headers)
}

fn query(text: &str) -> Result<Vec<Vec<String>>, QueryError> {
    let q = parse(text, PEOPLE)?;
    Driver::new(people()).perform_query(q)
}

#[test]
fn registry_is_made_anew_where_the_file_is_absent() {
    let (data, text) = DataAccessor::new(None, &listing(&["config.csv", "people.csv"])).unwrap();
    assert_eq!(data.ready(), &vec!["people".to_string()]);
    assert_eq!(text, Some("dataset\npeople\n".to_string()));
    let headers = DataAccessor::get_headers(PEOPLE).unwrap();
    assert_eq!(headers, vec!["id".to_string(), "name".to_string(), "age".to_string()]);
}

#[test]
fn registry_is_made_anew_where_the_file_is_invalid() {
    let broken: &[u8] = b"dataset\npeople\nfoo,bar\n";
    assert!(matches!(DataAccessor::read_config(broken), Err(QueryError::BadCSV(_))));
    let (data, text) =
        DataAccessor::new(Some(broken), &listing(&["b.csv", "config.csv", "a.csv"])).unwrap();
    assert_eq!(data.ready(), &vec!["b".to_string(), "a".to_string()]);
    assert_eq!(text, Some("dataset\nb\na\n".to_string()));
}

#[test]
fn registry_file_is_read_where_it_is_valid() {
    let (data, text) =
        DataAccessor::new(Some(b"dataset\npeople\npets\n"), &listing(&["other.csv"])).unwrap();
    assert_eq!(data.ready(), &vec!["people".to_string(), "pets".to_string()]);
    assert_eq!(text, None);
    assert_eq!(
        DataAccessor::read_config(b"dataset\npeople\npets\n"),
        Ok(vec!["people".to_string(), "pets".to_string()])
    );
    assert_eq!(DataAccessor::read_config(b""), Ok(Vec::new()));
}

#[test]
fn registry_round_trip() {
    let files = listing(&["people.csv", "config.csv", "pets.csv", "notes"]);
    let (first, text) = DataAccessor::new(None, &files).unwrap();
    let text = text.unwrap();
    let (second, again) = DataAccessor::new(Some(text.as_bytes()), &Vec::new()).unwrap();
    assert_eq!(again, None);
    assert_eq!(first.ready(), second.ready());
    assert_eq!(
        second.ready(),
        &vec!["people".to_string(), "pets".to_string(), "notes".to_string()]
    );
}

#[test]
fn a_file_name_that_is_no_text_is_fatal() {
    let files = vec![Some("people.csv".to_string()), None];
    let r = DataAccessor::recreate_config(&files);
    assert!(matches!(r, Err(QueryError::FileError(_))));
    let r = DataAccessor::new(None, &files);
    match r {
        Err(e) => assert_eq!(e.class(), ErrorClass::Storage),
        Ok(_) => panic!("expected an error"),
    }
}

#[test]
fn dataset_names_and_paths() {
    assert_eq!(CONFIG_FILE_NAME, "config.csv");
    assert_eq!(dataset_name("people.csv"), "people");
    assert_eq!(dataset_name("people"), "people");
    assert_eq!(dataset_name("a.csv.csv"), "a.csv");
    assert_eq!(dataset_name("a.csvx"), "a.csvx");
    assert_eq!(dataset_name("a.csvb"), "a.csvb");
    assert_eq!(dataset_name("a.csv.bak"), "a.csv.bak");
    assert_eq!(dataset_name("csv"), "csv");
    assert_eq!(dataset_name("a.CSV"), "a.CSV");
    assert_eq!(dataset_name(".csv"), "");
    assert_eq!(dataset_name("a.cs"), "a.cs");
    assert_eq!(dataset_name("a.b.csv"), "a.b");
    assert_eq!(dataset_path("people"), "./data/people.csv");
    assert_eq!(
        DataAccessor::recreate_config(&listing(&["x.csv"])),
        Ok((vec!["x".to_string()], "dataset\nx\n".to_string()))
    );
    assert_eq!(
        DataAccessor::recreate_config(&listing(&["x.csv.csv"])),
        Ok((vec!["x.csv".to_string()], "dataset\nx.csv\n".to_string()))
    );
    assert_eq!(
        DataAccessor::recreate_config(&Vec::new()),
        Ok((Vec::new(), "dataset\n".to_string()))
    );
}

#[test]
fn headers_come_from_the_first_row() {
    assert_eq!(
        DataAccessor::get_headers(b"a,\"b c\",d\n1,2,3\n"),
        Ok(vec!["a".to_string(), "b c".to_string(), "d".to_string()])
    );
    assert_eq!(DataAccessor::get_headers(b""), Ok(Vec::new()));
    assert!(matches!(DataAccessor::get_headers(b"a,\xff\n"), Err(QueryError::BadCSV(_))));
}

#[test]
fn rows_are_loaded_once_and_kept() {
    let (mut data, _) = DataAccessor::new(Some(b"dataset\npeople\npets\n"), &Vec::new()).unwrap();
    assert!(data.is_ready("people"));
    assert!(!data.is_ready("cars"));
    assert_eq!(data.needs_load("people"), Ok(true));
    assert_eq!(data.get("people"), Err(QueryError::NotLoaded("people".to_string())));
    assert_eq!(data.load("people".to_string(), PEOPLE), Ok(()));
    assert_eq!(data.needs_load("people"), Ok(false));
    let expected = rows(&[&["1", "Alice", "30"], &["2", "Bob", "25"]]);
    assert_eq!(data.get("people"), Ok(&expected));
    assert_eq!(data.load("pets".to_string(), b"name\nRex\n"), Ok(()));
    assert_eq!(data.get("pets"), Ok(&rows(&[&["Rex"]])));
    assert_eq!(data.get("people"), Ok(&expected));
    assert_eq!(data.load("pets".to_string(), b"name\nTom\n"), Ok(()));
    assert_eq!(data.get("pets"), Ok(&rows(&[&["Tom"]])));
    assert_eq!(data.get("people"), Ok(&expected));
}

#[test]
fn unknown_dataset_is_told_from_a_bad_file() {
    let (mut data, _) = DataAccessor::new(Some(b"dataset\npeople\n"), &Vec::new()).unwrap();
    assert_eq!(data.needs_load("cars"), Err(QueryError::UnknownDataset("cars".to_string())));
    assert_eq!(
        data.load("cars".to_string(), b"a\n1\n"),
        Err(QueryError::UnknownDataset("cars".to_string()))
    );
    assert_eq!(data.get("cars"), Err(QueryError::UnknownDataset("cars".to_string())));
    assert_eq!(data.get("cars").unwrap_err().class(), ErrorClass::Semantic);
    let r = data.load("people".to_string(), b"a,b\n1\n");
    assert!(matches!(r, Err(QueryError::BadCSV(_))));
    assert_eq!(r.unwrap_err().class(), ErrorClass::Storage);
    assert_eq!(data.needs_load("people"), Ok(true));
}

#[test]
fn selects_the_rows_that_the_predicate_keeps() {
    assert_eq!(query("select name from people where age >= 30"), Ok(rows(&[&["Alice"]])));
}

#[test]
fn or_keeps_rows_that_match_either_side() {
    assert_eq!(
        query("select id from people where name is \"Bob\" or age < 18"),
        Ok(rows(&[&["2"]]))
    );
}

#[test]
fn type_mismatch_fails_before_any_row_is_read() {
    let e = parse("select age from people where age < \"x\"", PEOPLE).unwrap_err();
    assert_eq!(e, QueryError::TypeMismatch);
    assert_eq!(e.class(), ErrorClass::Semantic);
}

#[test]
fn a_field_that_is_no_number_fails_the_query() {
    let bytes: &[u8] = b"id,name,age\n1,Alice,30\n2,Bob,old\n3,Carol,5\n";
    let q = parse("select name from people where age < 40", bytes).unwrap();
    let (mut data, _) = DataAccessor::new(Some(b"dataset\npeople\n"), &Vec::new()).unwrap();
    data.load("people".to_string(), bytes).unwrap();
    let e = Driver::new(data).perform_query(q).unwrap_err();
    assert_eq!(e, QueryError::QueryFailed(EvalFault::NotANumber { col: 2 }));
    assert_eq!(e.class(), ErrorClass::Eval);
}

#[test]
fn without_a_predicate_every_row_stays() {
    assert_eq!(
        query("select age, id, age from people"),
        Ok(rows(&[&["30", "1", "30"], &["25", "2", "25"]]))
    );
}

#[test]
fn rows_keep_their_order() {
    let table = rows(&[&["3", "c"], &["1", "a"], &["2", "b"], &["0", "z"]]);
    let mut parser = Parser::new("select v from t where k > 0");
    let target = parser.parse_target().unwrap();
    let q = parser.parse(target, &vec!["k".to_string(), "v".to_string()]).unwrap();
    assert_eq!(run(&q, &table), Ok(rows(&[&["c"], &["a"], &["b"]])));
    assert_eq!(run(&q, &Vec::new()), Ok(Vec::new()));
}

#[test]
fn a_row_without_a_selected_column_fails_the_run() {
    let q = ParsedQuery { cols: vec![0, 2], from: "t".to_string(), filter: None };
    let table = rows(&[&["a", "b", "c"], &["d", "e"]]);
    assert_eq!(run(&q, &table), Err(QueryError::QueryFailed(EvalFault::MissingField { col: 2 })));
    assert_eq!(
        project_row(&vec![1, 1, 0], &vec!["x".to_string(), "y".to_string()]),
        Ok(vec!["y".to_string(), "y".to_string(), "x".to_string()])
    );
}

#[test]
fn the_driver_asks_the_registry() {
    let (data, _) = DataAccessor::new(Some(b"dataset\npeople\n"), &Vec::new()).unwrap();
    let driver = Driver::new(data);
    let q = parse("select id from people", PEOPLE).unwrap();
    assert_eq!(driver.perform_query(q), Err(QueryError::NotLoaded("people".to_string())));
    let q = ParsedQuery { cols: vec![0], from: "cars".to_string(), filter: None };
    assert_eq!(driver.perform_query(q), Err(QueryError::UnknownDataset("cars".to_string())));
}

#[test]
fn the_same_query_gives_the_same_rows() {
    let text = "select name, id from people where age > 20 and name is \"Bob\"";
    let first = query(text);
    let second = query(text);
    assert_eq!(first, second);
    assert_eq!(first, Ok(rows(&[&["Bob", "2"]])));
}

#[test]
fn results_are_rendered_row_by_row() {
    let r = QueryResult::new(rows(&[&["1", "Alice"], &["2"], &[]]), "select x".to_string());
    assert_eq!(r.render(), "'select x':\n[1,Alice]\n[2]\n[]\n");
    let empty = QueryResult::new(Vec::new(), "q".to_string());
    assert_eq!(empty.render(), "'q':\n");
}

#[test]
fn a_whole_query_from_its_text() {
    let headers = DataAccessor::get_headers(PEOPLE).unwrap();
    let driver = Driver::new(people());
    let text = "select name from people where age >= 30".to_string();
    let r = toy_rust_db::perform_query(text.clone(), &headers, &driver).unwrap();
    assert_eq!(r.data, rows(&[&["Alice"]]));
    assert_eq!(r.query, text);
    assert_eq!(r.render(), "'select name from people where age >= 30':\n[Alice]\n");
    let again = toy_rust_db::perform_query(text.clone(), &headers, &driver).unwrap();
    assert_eq!(again.data, r.data);
    let e = toy_rust_db::perform_query("select wage from people".to_string(), &headers, &driver);
    assert_eq!(e.err(), Some(toy_rust_db::QueryError::UnknownColumn("wage".to_string())));
    let e = toy_rust_db::perform_query("select id from pets".to_string(), &headers, &driver);
    assert_eq!(e.err(), Some(QueryError::UnknownDataset("pets".to_string())));
    let e = toy_rust_db::perform_query("select id from".to_string(), &headers, &driver);
    assert_eq!(e.err().map(|e| e.class()), Some(ErrorClass::Syntax));
}

#[test]
fn registry_names_are_the_first_fields() {
    let records = rows(&[&["people", "extra"], &["pets"]]);
    assert_eq!(
        DataAccessor::names_from_records(&records),
        Ok(vec!["people".to_string(), "pets".to_string()])
    );
    assert_eq!(DataAccessor::names_from_records(&Vec::new()), Ok(Vec::new()));
    let r = DataAccessor::names_from_records(&rows(&[&["people"], &[]]));
    assert!(matches!(r, Err(QueryError::BadCSV(_))));
}

#[test]
fn rows_are_stored_for_known_datasets_only() {
    let (mut data, _) = DataAccessor::new(Some(b"dataset\npeople\n"), &Vec::new()).unwrap();
    let table = rows(&[&["1", "Alice", "30"]]);
    assert_eq!(
        data.store("cars".to_string(), table.clone()),
        Err(QueryError::UnknownDataset("cars".to_string()))
    );
    assert_eq!(data.get("cars"), Err(QueryError::UnknownDataset("cars".to_string())));
    assert_eq!(data.store("people".to_string(), table.clone()), Ok(()));
    assert_eq!(data.get("people"), Ok(&table));
    let other = rows(&[&["2", "Bob", "25"]]);
    assert_eq!(data.store("people".to_string(), other.clone()), Ok(()));
    assert_eq!(data.get("people"), Ok(&other));
    assert_eq!(data.needs_load("people"), Ok(false));
}

#[test]
fn a_dataset_named_after_its_file_leads_back_to_it() {
    for file in ["people.csv", "x.csv.csv", "a.b.csv", ".csv"] {
        let (data, _) = DataAccessor::new(None, &listing(&[file])).unwrap();
        let name = data.ready()[0].clone();
        assert_eq!(dataset_path(&name), format!("./data/{}", file));
    }
}
