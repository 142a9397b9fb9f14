use contact_crawler::company::Company;
use contact_crawler::roster::{
    array_of, clean_line, company_from_line, firm_from_capture, record_piece, roster_line,
    split_line,
};

#[test]
fn line_splits_at_the_first_tab() {
    assert_eq!(split_line("12\tAcme LLP"), Some(("12".to_string(), "Acme LLP".to_string())));
    assert_eq!(split_line("12\tAcme\tLLP"), Some(("12".to_string(), "Acme\tLLP".to_string())));
    assert_eq!(split_line("\t"), Some((String::new(), String::new())));
    assert_eq!(split_line("é\tü"), Some(("é".to_string(), "ü".to_string())));
    assert_eq!(split_line("12 Acme LLP"), None);
    assert_eq!(split_line(""), None);
}

#[test]
fn line_of_rank_and_name_lists_a_company() {
    assert_eq!(
        company_from_line("12\tAcme LLP"),
        Some(Company::new("12".to_string(), "Acme LLP".to_string()))
    );
    assert_eq!(company_from_line("no tab"), None);
}

#[test]
fn raw_line_is_cleaned_to_rank_and_firm_name() {
    assert_eq!(
        clean_line("3\tAcme LLP New York"),
        Some(Company::new("3".to_string(), "Acme LLP New York".to_string()))
    );
    assert_eq!(
        clean_line("3\tAcme LLP 1,200 $3.1bn"),
        Some(Company::new("3".to_string(), "Acme LLP".to_string()))
    );
    assert_eq!(clean_line("3\tAcme"), None);
    assert_eq!(clean_line("3 Acme LLP"), None);
    assert_eq!(firm_from_capture("3".to_string(), None), None);
    assert_eq!(
        firm_from_capture("3".to_string(), Some(" Acme \n".to_string())),
        Some(Company::new("3".to_string(), "Acme".to_string()))
    );
}

#[test]
fn company_is_listed_as_rank_tab_name() {
    let c = Company::new("12".to_string(), "Acme LLP".to_string());
    assert_eq!(roster_line(&c), "12\tAcme LLP");
    assert_eq!(company_from_line(&roster_line(&c)), Some(c));
}

#[test]
fn records_are_framed_as_an_array() {
    assert_eq!(record_piece(0, "{}"), "{}");
    assert_eq!(record_piece(1, "{}"), ",\n{}");
    assert_eq!(record_piece(usize::MAX, "{}"), ",\n{}");
    assert_eq!(array_of(&Vec::new()), "[\n\n]\n");
    assert_eq!(array_of(&vec!["{\"a\":1}".to_string()]), "[\n{\"a\":1}\n]\n");
    assert_eq!(
        array_of(&vec!["{\"a\":1}".to_string(), "{\"b\":2}".to_string(), "3".to_string()]),
        "[\n{\"a\":1},\n{\"b\":2},\n3\n]\n"
    );
}
