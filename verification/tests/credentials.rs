use obsctl::credentials::{
    credentials_from_fields, get_credentials, needs_csv_file, read_credentials_csv,
    CredentialsError,
};
use obsctl::signing::Credentials;

const CSV: &str = "User Name,Access Key Id,Secret Access Key\n\
                   \"user\",AKIDEXAMPLE,SECRETEXAMPLE\n\
                   other,AK2,SK2\n";

fn some(s: &str) -> Option<String> {
    Some(s.to_string())
}

fn pair(r: Result<Credentials, CredentialsError>) -> Result<(String, String), CredentialsError> {
    r.map(|c| (c.ak, c.sk))
}

fn keys(ak: &str, sk: &str) -> Result<(String, String), CredentialsError> {
    Ok((ak.to_string(), sk.to_string()))
}

#[test]
fn csv_file_gives_the_keys_of_its_first_record() {
    assert_eq!(pair(read_credentials_csv(CSV.as_bytes())), keys("AKIDEXAMPLE", "SECRETEXAMPLE"));
}

#[test]
fn csv_file_without_records() {
    assert_eq!(pair(read_credentials_csv(b"")), Err(CredentialsError::NoRecords));
    assert_eq!(
        pair(read_credentials_csv(b"User Name,Access Key Id,Secret Access Key\n")),
        Err(CredentialsError::NoRecords)
    );
}

#[test]
fn csv_file_with_too_few_columns() {
    assert_eq!(pair(read_credentials_csv(b"a\nuser\n")), Err(CredentialsError::MissingAk));
    assert_eq!(pair(read_credentials_csv(b"a,b\nuser,AK\n")), Err(CredentialsError::MissingSk));
    assert_eq!(pair(read_credentials_csv(b"a,b,c,d\nuser,AK,SK,more\n")), keys("AK", "SK"));
}

#[test]
fn csv_record_that_cannot_be_read() {
    // The record has fewer fields than the header.
    assert_eq!(
        pair(read_credentials_csv(b"a,b,c\nuser,AK\n")),
        Err(CredentialsError::BadRecord)
    );
    // The record is no UTF-8 text.
    assert_eq!(
        pair(read_credentials_csv(b"a,b,c\nuser,\xff\xfe,SK\n")),
        Err(CredentialsError::BadRecord)
    );
}

#[test]
fn command_line_comes_first() {
    let r = get_credentials(
        some("cli-ak"),
        some("cli-sk"),
        some("env-ak"),
        some("env-sk"),
        Some(CSV.as_bytes().to_vec()),
    );
    assert_eq!(pair(r), keys("cli-ak", "cli-sk"));
}

#[test]
fn environment_comes_second() {
    let r = get_credentials(None, None, some("env-ak"), some("env-sk"), Some(CSV.as_bytes().to_vec()));
    assert_eq!(pair(r), keys("env-ak", "env-sk"));
    // One key on the command line is not enough.
    let r = get_credentials(some("cli-ak"), None, some("env-ak"), some("env-sk"), None);
    assert_eq!(pair(r), keys("env-ak", "env-sk"));
    let r = get_credentials(None, some("cli-sk"), some("env-ak"), some("env-sk"), None);
    assert_eq!(pair(r), keys("env-ak", "env-sk"));
}

#[test]
fn csv_file_comes_last() {
    let r = get_credentials(None, None, None, None, Some(CSV.as_bytes().to_vec()));
    assert_eq!(pair(r), keys("AKIDEXAMPLE", "SECRETEXAMPLE"));
    // Keys from two places are not put together.
    let r = get_credentials(some("cli-ak"), None, None, some("env-sk"), Some(CSV.as_bytes().to_vec()));
    assert_eq!(pair(r), keys("AKIDEXAMPLE", "SECRETEXAMPLE"));
}

#[test]
fn nothing_anywhere() {
    let r = get_credentials(None, None, None, None, None);
    assert_eq!(pair(r), Err(CredentialsError::NoFile));
    let r = get_credentials(some("ak"), None, None, some("sk"), None);
    assert_eq!(pair(r), Err(CredentialsError::NoFile));
    let r = get_credentials(None, None, some("ak"), None, Some(Vec::new()));
    assert_eq!(pair(r), Err(CredentialsError::NoRecords));
}

#[test]
fn csv_file_is_needed_only_when_keys_are_missing_elsewhere() {
    assert!(needs_csv_file(&None, &None, &None, &None));
    assert!(needs_csv_file(&some("a"), &None, &None, &some("s")));
    assert!(needs_csv_file(&None, &some("s"), &some("a"), &None));
    assert!(!needs_csv_file(&some("a"), &some("s"), &None, &None));
    assert!(!needs_csv_file(&None, &None, &some("a"), &some("s")));
    assert!(!needs_csv_file(&some("a"), &some("s"), &some("a"), &some("s")));
}

#[test]
fn keys_stand_in_the_second_and_third_field_of_a_record() {
    let fields = |items: &[&str]| items.iter().map(|s| s.to_string()).collect::<Vec<String>>();
    assert_eq!(pair(credentials_from_fields(&fields(&[]))), Err(CredentialsError::MissingAk));
    assert_eq!(pair(credentials_from_fields(&fields(&["u"]))), Err(CredentialsError::MissingAk));
    assert_eq!(
        pair(credentials_from_fields(&fields(&["u", "ak"]))),
        Err(CredentialsError::MissingSk)
    );
    assert_eq!(pair(credentials_from_fields(&fields(&["u", "ak", "sk"]))), keys("ak", "sk"));
    assert_eq!(pair(credentials_from_fields(&fields(&["u", "", "", "x"]))), keys("", ""));
}
